//! How type parameters and their markers are written.

use vstd::prelude::*;
use vstd::string::*;
use crate::decl::{
    add_ty_params, plain_ty_param, Bound, Generics, GenericsView, ParamView, TyParam, Visibility,
};
use crate::text::{append_separated, decimal, decimal_text, join, separated, texts};
use crate::typestate::MarkerArg;

verus! {

/// A name with its attributes in front, if there are any.
pub open spec fn attributed(attrs: Seq<char>, name: Seq<char>) -> Seq<char> {
    if attrs.len() == 0 {
        name
    } else {
        attrs + " "@ + name
    }
}

/// A parameter as it is declared: its attributes, its name, and its bounds
/// if it has any.
pub open spec fn declared(param: ParamView) -> Seq<char> {
    if param.bounds.len() == 0 {
        attributed(param.attrs, param.name)
    } else {
        attributed(param.attrs, param.name) + ": "@ + param.bounds
    }
}

/// The parameters as they are declared.
pub open spec fn declarations(params: Seq<ParamView>) -> Seq<Seq<char>> {
    Seq::new(params.len(), |k: int| declared(params[k]))
}

/// The names of the parameters.
pub open spec fn names(params: Seq<ParamView>) -> Seq<Seq<char>> {
    Seq::new(params.len(), |k: int| params[k].name)
}

/// A list in angle brackets; nothing at all for an empty list.
pub open spec fn in_angles(items: Seq<Seq<char>>) -> Seq<char> {
    if items.len() == 0 {
        Seq::empty()
    } else {
        "<"@ + separated(items, ", "@) + ">"@
    }
}

/// The parameters as an impl declares them: with their bounds.
pub open spec fn impl_generics_text(generics: GenericsView) -> Seq<char> {
    in_angles(declarations(generics.lifetimes) + declarations(generics.ty_params))
}

/// The parameters as arguments of the type: the names only.
pub open spec fn ty_generics_text(generics: GenericsView) -> Seq<char> {
    in_angles(names(generics.lifetimes) + names(generics.ty_params))
}

/// The where clause; nothing at all where there are no predicates.
pub open spec fn where_text(generics: GenericsView) -> Seq<char> {
    if generics.predicates.len() == 0 {
        Seq::empty()
    } else {
        " where "@ + separated(generics.predicates, ", "@)
    }
}

/// The words that say who can see an item.
pub open spec fn vis_text(vis: Visibility) -> Seq<char> {
    match vis {
        Visibility::Public => "pub "@,
        Visibility::Crate => "pub(crate) "@,
        Visibility::Restricted(path) => "pub("@ + path@ + ") "@,
        Visibility::Inherited => Seq::empty(),
    }
}

/// Writes the words that say who can see an item.
pub fn visibility(vis: &Visibility) -> (text: String)
    ensures
        text@ == vis_text(*vis),
{
    match vis {
        Visibility::Public => String::from_str("pub "),
        Visibility::Crate => String::from_str("pub(crate) "),
        Visibility::Restricted(path) => {
            let mut text = join("pub(", path.as_str());
            text.append(") ");
            text
        },
        Visibility::Inherited => String::new(),
    }
}

fn in_angle_brackets(items: &Vec<String>) -> (text: String)
    ensures
        text@ == in_angles(texts(items@)),
{
    if items.len() == 0 {
        String::new()
    } else {
        let mut text = String::from_str("<");
        append_separated(&mut text, items, ", ");
        text.append(">");
        text
    }
}

/// Writes one parameter as it is declared.
fn declaration(attrs: &String, name: &String, bounds: &String) -> (text: String)
    ensures
        text@ == if bounds@.len() == 0 {
            attributed(attrs@, name@)
        } else {
            attributed(attrs@, name@) + ": "@ + bounds@
        },
{
    let mut text = if attrs.as_str().unicode_len() != 0 {
        let mut text = attrs.clone();
        text.append(" ");
        text.append(name.as_str());
        text
    } else {
        name.clone()
    };
    if bounds.as_str().unicode_len() != 0 {
        text.append(": ");
        text.append(bounds.as_str());
    }
    text
}

/// Writes the parameters as an impl declares them.
pub fn impl_generics(generics: &Generics) -> (text: String)
    ensures
        text@ == impl_generics_text(generics@),
{
    let mut items: Vec<String> = Vec::new();
    let mut i: usize = 0;
    while i < generics.lifetimes.len()
        invariant
            i <= generics.lifetimes.len(),
            items@.len() == i,
            forall|k: int| 0 <= k < i ==> items@[k]@ == declared(generics.lifetimes@[k]@),
        decreases generics.lifetimes.len() - i,
    {
        let param = &generics.lifetimes[i];
        items.push(declaration(&param.attrs, &param.name, &param.bounds));
        i += 1;
    }
    let mut j: usize = 0;
    while j < generics.ty_params.len()
        invariant
            j <= generics.ty_params.len(),
            items@.len() == generics.lifetimes@.len() + j,
            forall|k: int|
                0 <= k < generics.lifetimes@.len() ==> items@[k]@ == declared(
                    generics.lifetimes@[k]@,
                ),
            forall|k: int|
                0 <= k < j ==> items@[generics.lifetimes@.len() + k]@ == declared(
                    generics.ty_params@[k]@,
                ),
        decreases generics.ty_params.len() - j,
    {
        let param = &generics.ty_params[j];
        items.push(declaration(&param.attrs, &param.ident, &param.bounds));
        j += 1;
    }
    proof {
        assert(texts(items@) =~= declarations(generics@.lifetimes) + declarations(
            generics@.ty_params,
        ));
    }
    in_angle_brackets(&items)
}

/// Writes the parameters as arguments of the type.
pub fn ty_generics(generics: &Generics) -> (text: String)
    ensures
        text@ == ty_generics_text(generics@),
{
    let mut items: Vec<String> = Vec::new();
    let mut i: usize = 0;
    while i < generics.lifetimes.len()
        invariant
            i <= generics.lifetimes.len(),
            items@.len() == i,
            forall|k: int| 0 <= k < i ==> items@[k]@ == generics.lifetimes@[k].name@,
        decreases generics.lifetimes.len() - i,
    {
        items.push(generics.lifetimes[i].name.clone());
        i += 1;
    }
    let mut j: usize = 0;
    while j < generics.ty_params.len()
        invariant
            j <= generics.ty_params.len(),
            items@.len() == generics.lifetimes@.len() + j,
            forall|k: int|
                0 <= k < generics.lifetimes@.len() ==> items@[k]@ == generics.lifetimes@[k].name@,
            forall|k: int|
                0 <= k < j ==> items@[generics.lifetimes@.len() + k]@
                    == generics.ty_params@[k].ident@,
        decreases generics.ty_params.len() - j,
    {
        items.push(generics.ty_params[j].ident.clone());
        j += 1;
    }
    proof {
        assert(texts(items@) =~= names(generics@.lifetimes) + names(generics@.ty_params));
    }
    in_angle_brackets(&items)
}

/// Writes the where clause.
pub fn where_clause(generics: &Generics) -> (text: String)
    ensures
        text@ == where_text(generics@),
{
    if generics.predicates.len() == 0 {
        String::new()
    } else {
        let mut text = String::from_str(" where ");
        append_separated(&mut text, &generics.predicates, ", ");
        text
    }
}

/// The path of a trait as it is written.
pub open spec fn bound_text(global: bool, segments: Seq<Seq<char>>) -> Seq<char> {
    if global {
        "::"@ + separated(segments, "::"@)
    } else {
        separated(segments, "::"@)
    }
}

/// A parameter with one more bound.
pub open spec fn with_bound(param: ParamView, bound: Seq<char>) -> ParamView {
    ParamView {
        attrs: param.attrs,
        name: param.name,
        bounds: if param.bounds.len() == 0 {
            bound
        } else {
            param.bounds + " + "@ + bound
        },
        default: param.default,
    }
}

/// The parameters with one more bound on every type parameter.
pub open spec fn bounded(generics: GenericsView, bound: Seq<char>) -> GenericsView {
    GenericsView {
        lifetimes: generics.lifetimes,
        ty_params: Seq::new(
            generics.ty_params.len(),
            |k: int| with_bound(generics.ty_params[k], bound),
        ),
        predicates: generics.predicates,
    }
}

/// The parameters with more type parameters in front.
pub open spec fn with_params(generics: GenericsView, params: Seq<ParamView>) -> GenericsView {
    GenericsView {
        lifetimes: generics.lifetimes,
        ty_params: params + generics.ty_params,
        predicates: generics.predicates,
    }
}

impl Bound {
    /// Writes the path of the trait.
    pub fn text(&self) -> (text: String)
        ensures
            text@ == bound_text(self.global, texts(self.segments@)),
    {
        let mut text = if self.global {
            String::from_str("::")
        } else {
            String::new()
        };
        proof {
            assert(Seq::<char>::empty() + separated(texts(self.segments@), "::"@) =~= separated(
                texts(self.segments@),
                "::"@,
            ));
        }
        append_separated(&mut text, &self.segments, "::");
        text
    }
}

/// A copy of the parameters in which every type parameter has one more
/// bound.
pub fn bound_all(generics: &Generics, bound: &Bound) -> (result: Generics)
    ensures
        result@ == bounded(generics@, bound_text(bound.global, texts(bound.segments@))),
{
    let mut result = generics.duplicate();
    let added = bound.text();
    let mut params: Vec<TyParam> = Vec::new();
    std::mem::swap(&mut params, &mut result.ty_params);
    let ghost before = params@;
    let mut bounded_params: Vec<TyParam> = Vec::new();
    for param in it: params
        invariant
            it.seq() == before,
            bounded_params@.len() == it.index(),
            forall|k: int|
                0 <= k < it.index() ==> bounded_params@[k]@ == with_bound(before[k]@, added@),
    {
        let mut param = param;
        if param.bounds.as_str().unicode_len() != 0 {
            param.bounds.append(" + ");
        }
        param.bounds.append(added.as_str());
        proof {
            assert(Seq::<char>::empty() + added@ =~= added@);
        }
        bounded_params.push(param);
    }
    result.ty_params = bounded_params;
    proof {
        assert(result@.ty_params =~= bounded(generics@, added@).ty_params);
    }
    result
}

/// The name of the type that stands at the place of a marker: the marker
/// types of the module, or the parameter of that place.
pub open spec fn marker_name(arg: MarkerArg, place: nat, module: Seq<char>) -> Seq<char> {
    match arg {
        MarkerArg::Unset => module + "::O"@,
        MarkerArg::Given => module + "::I"@,
        MarkerArg::Free => "_"@ + decimal_text(place),
    }
}

/// The markers as type parameters without bounds.
pub open spec fn marker_views(pattern: Seq<MarkerArg>, module: Seq<char>) -> Seq<ParamView> {
    Seq::new(
        pattern.len(),
        |k: int|
            ParamView {
                attrs: Seq::empty(),
                name: marker_name(pattern[k], k as nat, module),
                bounds: Seq::empty(),
                default: None,
            },
    )
}

/// The parameters of the given places, as type parameters without bounds.
pub open spec fn place_views(places: Seq<usize>) -> Seq<ParamView> {
    Seq::new(
        places.len(),
        |k: int|
            ParamView {
                attrs: Seq::empty(),
                name: "_"@ + decimal_text(places[k] as nat),
                bounds: Seq::empty(),
                default: None,
            },
    )
}

/// What each type parameter of a list is, as a value.
pub open spec fn param_views(params: Seq<TyParam>) -> Seq<ParamView> {
    Seq::new(params.len(), |k: int| params[k]@)
}

/// The markers as type parameters.
pub fn marker_params(pattern: &Vec<MarkerArg>, module: &str) -> (params: Vec<TyParam>)
    ensures
        param_views(params@) == marker_views(pattern@, module@),
{
    let mut params: Vec<TyParam> = Vec::new();
    let mut i: usize = 0;
    while i < pattern.len()
        invariant
            i <= pattern.len(),
            params@.len() == i,
            forall|k: int|
                0 <= k < i ==> params@[k]@ == (ParamView {
                    attrs: Seq::empty(),
                    name: marker_name(pattern@[k], k as nat, module@),
                    bounds: Seq::empty(),
                    default: None,
                }),
        decreases pattern.len() - i,
    {
        let name = match pattern[i] {
            MarkerArg::Unset => join(module, "::O"),
            MarkerArg::Given => join(module, "::I"),
            MarkerArg::Free => join("_", decimal(i).as_str()),
        };
        params.push(plain_ty_param(name));
        i += 1;
    }
    proof {
        assert(param_views(params@) =~= marker_views(pattern@, module@));
    }
    params
}

/// The parameters of the given places, as type parameters.
pub fn place_params(places: &Vec<usize>) -> (params: Vec<TyParam>)
    ensures
        param_views(params@) == place_views(places@),
{
    let mut params: Vec<TyParam> = Vec::new();
    let mut i: usize = 0;
    while i < places.len()
        invariant
            i <= places.len(),
            params@.len() == i,
            forall|k: int|
                0 <= k < i ==> params@[k]@ == (ParamView {
                    attrs: Seq::empty(),
                    name: "_"@ + decimal_text(places@[k] as nat),
                    bounds: Seq::empty(),
                    default: None,
                }),
        decreases places.len() - i,
    {
        params.push(plain_ty_param(join("_", decimal(places[i]).as_str())));
        i += 1;
    }
    proof {
        assert(param_views(params@) =~= place_views(places@));
    }
    params
}

/// The given parameters with more type parameters in front.
pub fn extended(generics: Generics, params: Vec<TyParam>) -> (result: Generics)
    ensures
        result@ == with_params(generics@, param_views(params@)),
{
    let mut result = generics;
    add_ty_params(&mut result, params);
    proof {
        assert(result@.ty_params =~= param_views(params@) + generics@.ty_params);
        assert(result@.lifetimes =~= generics@.lifetimes);
    }
    result
}

} // verus!
