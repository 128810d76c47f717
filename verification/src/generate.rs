//! The text of a builder: the declarations that give a record its builder
//! type, from the module of the markers to the last setter.

use vstd::prelude::*;
use vstd::string::*;
use crate::decl::{
    priv_field, ty_param_bound, unwrap_from_option, wrap_into_option, Declaration, Field, Generics,
    GenericsView, Globalization,
};
use crate::error::GenError;
use crate::render::{
    bound_all, bound_text, bounded, extended, impl_generics, impl_generics_text, marker_params,
    marker_views, names, place_params, place_views, ty_generics, ty_generics_text, vis_text,
    visibility, where_clause, where_text, with_params,
};
use crate::schema::{derivation_error, law_one_schema_per_declaration, Schema};
use crate::text::{
    append_paired, append_separated, append_wrapped, decimal, decimal_text, join, paired, separated,
    texts, wrapped,
};
use crate::typestate::{
    end_markers, open_markers, other_markers, setter_markers, start_markers, uniform, Call,
    MarkerArg,
};

verus! {

/// The name under which the builder keeps the field at `place`.
pub open spec fn store_name(place: nat) -> Seq<char> {
    "_f"@ + decimal_text(place)
}

/// The names under which the builder keeps the fields at the given places.
pub open spec fn stores(places: Seq<usize>) -> Seq<Seq<char>> {
    Seq::new(places.len(), |j: int| store_name(places[j] as nat))
}

/// The names of the fields at the given places.
pub open spec fn field_names(schema: Schema, places: Seq<usize>) -> Seq<Seq<char>> {
    Seq::new(places.len(), |j: int| schema.fields@[places[j] as int].name@)
}

/// The types that the builder gives to the slots of the required fields: the
/// type of the field, made optional.
pub open spec fn required_types(schema: Schema) -> Seq<Seq<char>> {
    Seq::new(
        schema.required@.len(),
        |j: int| "Option<"@ + schema.fields@[schema.required@[j] as int].ty.text@ + ">"@,
    )
}

/// The types that the builder gives to the slots of the optional fields:
/// those of the fields.
pub open spec fn optional_types(schema: Schema) -> Seq<Seq<char>> {
    Seq::new(
        schema.optional@.len(),
        |j: int| schema.fields@[schema.optional@[j] as int].ty.text@,
    )
}

/// The parameters of the builder type whose markers are `pattern`.
pub open spec fn builder_generics(schema: Schema, pattern: Seq<MarkerArg>) -> GenericsView {
    with_params(schema.generics@, marker_views(pattern, schema.module@))
}

/// The markers that every builder has, whatever has been given.
pub open spec fn open_pattern(schema: Schema) -> Seq<MarkerArg> {
    uniform(schema.required@.len(), MarkerArg::Free)
}

/// The places of the markers that the setter of the required field in `slot`
/// leaves open.
pub open spec fn other_places(required: nat, slot: int) -> Seq<usize> {
    Seq::new(
        (required - 1) as nat,
        |k: int|
            if k < slot {
                k as usize
            } else {
                (k + 1) as usize
            },
    )
}

/// What the pieces of the text are made of: the words and lists that several
/// of them share.
struct Parts {
    vis: String,
    record_impl: String,
    record_ty: String,
    where_clause: String,
    open_impl: String,
    open_ty: String,
    marker_names: Vec<String>,
    required_stores: Vec<String>,
    required_types: Vec<String>,
    required_names: Vec<String>,
    optional_stores: Vec<String>,
    optional_types: Vec<String>,
    optional_names: Vec<String>,
}

impl Parts {
    /// Whether these are the parts for `schema`.
    spec fn of(self, schema: Schema) -> bool {
        &&& self.vis@ == vis_text(*schema.vis)
        &&& self.record_impl@ == impl_generics_text(schema.generics@)
        &&& self.record_ty@ == ty_generics_text(schema.generics@)
        &&& self.where_clause@ == where_text(schema.generics@)
        &&& self.open_impl@ == impl_generics_text(builder_generics(schema, open_pattern(schema)))
        &&& self.open_ty@ == ty_generics_text(builder_generics(schema, open_pattern(schema)))
        &&& texts(self.marker_names@) == names(marker_views(open_pattern(schema), schema.module@))
        &&& texts(self.required_stores@) == stores(schema.required@)
        &&& texts(self.required_types@) == required_types(schema)
        &&& texts(self.required_names@) == field_names(schema, schema.required@)
        &&& texts(self.optional_stores@) == stores(schema.optional@)
        &&& texts(self.optional_types@) == optional_types(schema)
        &&& texts(self.optional_names@) == field_names(schema, schema.optional@)
        &&& self.required_stores@.len() == schema.required@.len()
        &&& self.required_types@.len() == schema.required@.len()
        &&& self.required_names@.len() == schema.required@.len()
        &&& self.optional_stores@.len() == schema.optional@.len()
        &&& self.optional_types@.len() == schema.optional@.len()
        &&& self.optional_names@.len() == schema.optional@.len()
    }
}

/// The fields of the builder type that keep the fields of one kind, by slot.
/// A required field is kept under an optional type, so that its slot can be
/// empty at the start; an optional field is kept as it is.
fn builder_fields(schema: &Schema, required: bool) -> (fields: Vec<Field>)
    requires
        schema.well_formed(),
    ensures
        ({
            let places = if required {
                schema.required@
            } else {
                schema.optional@
            };
            &&& fields@.len() == places.len()
            &&& forall|j: int|
                0 <= j < places.len() ==> ((#[trigger] fields@[j]).ident matches Some(name)
                    && name@ == store_name(places[j] as nat))
            &&& forall|j: int|
                0 <= j < places.len() ==> (#[trigger] fields@[j]).ty.text@ == if required {
                    "Option<"@ + schema.fields@[places[j] as int].ty.text@ + ">"@
                } else {
                    schema.fields@[places[j] as int].ty.text@
                }
        }),
{
    let places = if required {
        &schema.required
    } else {
        &schema.optional
    };
    let mut fields: Vec<Field> = Vec::new();
    let mut j: usize = 0;
    while j < places.len()
        invariant
            j <= places.len(),
            schema.well_formed(),
            places@ == if required {
                schema.required@
            } else {
                schema.optional@
            },
            fields@.len() == j,
            forall|k: int|
                0 <= k < j ==> ((#[trigger] fields@[k]).ident matches Some(name) && name@
                    == store_name(places@[k] as nat)),
            forall|k: int|
                0 <= k < j ==> (#[trigger] fields@[k]).ty.text@ == if required {
                    "Option<"@ + schema.fields@[places@[k] as int].ty.text@ + ">"@
                } else {
                    schema.fields@[places@[k] as int].ty.text@
                },
        decreases places.len() - j,
    {
        let place = places[j];
        proof {
            if required {
                assert(schema.required@[j as int] < schema.fields@.len());
            } else {
                assert(schema.optional@[j as int] < schema.fields@.len());
            }
        }
        let ty = schema.fields[place].ty.duplicate();
        let kept = if required {
            wrap_into_option(ty)
        } else {
            ty
        };
        fields.push(priv_field(join("_f", decimal(place).as_str()), kept));
        j += 1;
    }
    fields
}

/// The names of the fields, which all have one.
fn idents_of(fields: &Vec<Field>) -> (idents: Vec<String>)
    requires
        forall|j: int| 0 <= j < fields@.len() ==> (#[trigger] fields@[j]).ident is Some,
    ensures
        idents@.len() == fields@.len(),
        forall|j: int| 0 <= j < fields@.len() ==> fields@[j].ident == Some(#[trigger] idents@[j]),
{
    let mut idents: Vec<String> = Vec::new();
    let mut j: usize = 0;
    while j < fields.len()
        invariant
            j <= fields.len(),
            forall|k: int| 0 <= k < fields@.len() ==> (#[trigger] fields@[k]).ident is Some,
            idents@.len() == j,
            forall|k: int| 0 <= k < j ==> fields@[k].ident == Some(#[trigger] idents@[k]),
        decreases fields.len() - j,
    {
        assert(fields@[j as int].ident is Some);
        let name = match &fields[j].ident {
            Some(name) => name.clone(),
            None => unreached(),
        };
        idents.push(name);
        j += 1;
    }
    idents
}

/// The types of the fields, as they are written.
fn types_of(fields: &Vec<Field>) -> (types: Vec<String>)
    ensures
        types@.len() == fields@.len(),
        forall|j: int| 0 <= j < fields@.len() ==> (#[trigger] types@[j])@ == fields@[j].ty.text@,
{
    let mut types: Vec<String> = Vec::new();
    let mut j: usize = 0;
    while j < fields.len()
        invariant
            j <= fields.len(),
            types@.len() == j,
            forall|k: int| 0 <= k < j ==> (#[trigger] types@[k])@ == fields@[k].ty.text@,
        decreases fields.len() - j,
    {
        types.push(fields[j].ty.text.clone());
        j += 1;
    }
    types
}

/// The names of the fields of the record at the given places.
fn names_at(schema: &Schema, places: &Vec<usize>) -> (found: Vec<String>)
    requires
        forall|j: int| 0 <= j < places@.len() ==> (#[trigger] places@[j]) < schema.fields@.len(),
    ensures
        texts(found@) == field_names(*schema, places@),
{
    let mut found: Vec<String> = Vec::new();
    let mut j: usize = 0;
    while j < places.len()
        invariant
            j <= places.len(),
            forall|k: int| 0 <= k < places@.len() ==> (#[trigger] places@[k]) < schema.fields@.len(),
            found@.len() == j,
            forall|k: int| 0 <= k < j ==> found@[k]@ == schema.fields@[places@[k] as int].name@,
        decreases places.len() - j,
    {
        assert(places@[j as int] < schema.fields@.len());
        found.push(schema.fields[places[j]].name.clone());
        j += 1;
    }
    proof {
        assert(texts(found@) =~= field_names(*schema, places@));
    }
    found
}

/// The names of the parameters.
fn param_names(generics: &Generics, count: usize) -> (found: Vec<String>)
    requires
        count <= generics.ty_params@.len(),
    ensures
        found@.len() == count,
        forall|k: int| 0 <= k < count ==> (#[trigger] found@[k])@ == generics.ty_params@[k].ident@,
{
    let mut found: Vec<String> = Vec::new();
    let mut j: usize = 0;
    while j < count
        invariant
            j <= count,
            count <= generics.ty_params@.len(),
            found@.len() == j,
            forall|k: int| 0 <= k < j ==> (#[trigger] found@[k])@ == generics.ty_params@[k].ident@,
        decreases count - j,
    {
        found.push(generics.ty_params[j].ident.clone());
        j += 1;
    }
    found
}

/// Makes the parts for `schema`.
fn parts_of(schema: &Schema) -> (parts: Parts)
    requires
        schema.well_formed(),
    ensures
        parts.of(*schema),
{
    let required = schema.required.len();
    let pattern = open_markers(required);
    let open = extended(schema.generics.duplicate(), marker_params(&pattern, schema.module.as_str()));
    proof {
        assert(open@.ty_params.len() == open.ty_params@.len());
        assert(marker_views(open_pattern(*schema), schema.module@).len() == required);
    }
    let marker_names = param_names(&open, required);
    let kept = builder_fields(schema, true);
    let kept_optional = builder_fields(schema, false);
    let parts = Parts {
        vis: visibility(schema.vis),
        record_impl: impl_generics(schema.generics),
        record_ty: ty_generics(schema.generics),
        where_clause: where_clause(schema.generics),
        open_impl: impl_generics(&open),
        open_ty: ty_generics(&open),
        marker_names,
        required_stores: idents_of(&kept),
        required_types: types_of(&kept),
        required_names: names_at(schema, &schema.required),
        optional_stores: idents_of(&kept_optional),
        optional_types: types_of(&kept_optional),
        optional_names: names_at(schema, &schema.optional),
    };
    proof {
        assert(open@ == builder_generics(*schema, open_pattern(*schema)));
        let views = marker_views(open_pattern(*schema), schema.module@);
        assert forall|k: int| 0 <= k < required implies (#[trigger] parts.marker_names@[k])@
            == views[k].name by {
            assert(open@.ty_params[k] == open.ty_params@[k]@);
            assert(open@.ty_params[k] == views[k]);
        }
        assert(texts(parts.marker_names@) =~= names(views));
        assert(texts(parts.required_stores@) =~= stores(schema.required@));
        assert(texts(parts.required_types@) =~= required_types(*schema));
        assert(texts(parts.optional_stores@) =~= stores(schema.optional@));
        assert(texts(parts.optional_types@) =~= optional_types(*schema));
        assert(texts(parts.required_names@).len() == parts.required_names@.len());
        assert(texts(parts.optional_names@).len() == parts.optional_names@.len());
    }
    parts
}


/// The module that holds the two marker types and the validator that
/// changes nothing.
#[verifier::opaque]
pub open spec fn module_text(schema: Schema) -> Seq<char> {
    "#[doc(hidden)] #[allow(unused)] "@ + vis_text(*schema.vis) + "mod "@ + schema.module@
        + " { pub struct O; pub struct I; pub fn id<T>(t: T) -> T { t } } "@
}

/// The builder type: one marker for each required field, then the
/// parameters of the record; a slot for each field.
#[verifier::opaque]
pub open spec fn struct_text(schema: Schema) -> Seq<char> {
    vis_text(*schema.vis) + "struct "@ + schema.builder@ + impl_generics_text(
        builder_generics(schema, open_pattern(schema)),
    ) + where_text(schema.generics@) + " { _marker: ::std::marker::PhantomData<("@ + separated(
        names(marker_views(open_pattern(schema), schema.module@)),
        ", "@,
    ) + ")>, "@ + paired(stores(schema.required@), required_types(schema), ""@, ": "@, ", "@)
        + paired(stores(schema.optional@), optional_types(schema), ""@, ": "@, ", "@) + "} "@
}

/// The constructor: it returns the builder in which every marker is unset
/// and every slot is empty.
#[verifier::opaque]
pub open spec fn constructor_text(schema: Schema) -> Seq<char> {
    let start = ty_generics_text(
        builder_generics(schema, uniform(schema.required@.len(), MarkerArg::Unset)),
    );
    "impl"@ + impl_generics_text(schema.generics@) + " "@ + schema.builder@ + start + where_text(
        schema.generics@,
    ) + " { "@ + vis_text(*schema.vis) + "fn "@ + schema.constructor@ + "() -> "@ + schema.builder@
        + start + " { "@ + schema.builder@ + " { _marker: ::std::marker::PhantomData, "@ + wrapped(
        stores(schema.required@),
        ""@,
        ": None, "@,
    ) + wrapped(stores(schema.optional@), ""@, ": None, "@) + "} } } "@
}

/// The parameters of the builder where every parameter of the record has
/// one more bound.
pub open spec fn bounded_generics(schema: Schema, bound: Seq<char>) -> GenericsView {
    with_params(
        bounded(schema.generics@, bound),
        marker_views(open_pattern(schema), schema.module@),
    )
}

/// The copy: every builder has it, whatever has been given, and it copies
/// slot by slot.
#[verifier::opaque]
pub open spec fn clone_text(schema: Schema) -> Seq<char> {
    "impl"@ + impl_generics_text(bounded_generics(schema, "Clone"@)) + " Clone for "@
        + schema.builder@ + ty_generics_text(builder_generics(schema, open_pattern(schema)))
        + where_text(schema.generics@) + " { fn clone(&self) -> Self { "@ + schema.builder@
        + " { _marker: ::std::marker::PhantomData, "@ + paired(
        stores(schema.required@),
        stores(schema.required@),
        ""@,
        ": self."@,
        ".clone(), "@,
    ) + paired(
        stores(schema.optional@),
        stores(schema.optional@),
        ""@,
        ": self."@,
        ".clone(), "@,
    ) + "} } } "@
}

/// The inspection: every builder has it, whatever has been given, and it
/// shows slot by slot.
#[verifier::opaque]
pub open spec fn debug_text(schema: Schema) -> Seq<char> {
    "impl"@ + impl_generics_text(bounded_generics(schema, "::std::fmt::Debug"@))
        + " ::std::fmt::Debug for "@ + schema.builder@ + ty_generics_text(
        builder_generics(schema, open_pattern(schema)),
    ) + where_text(schema.generics@)
        + " { fn fmt(&self, fmt: &mut ::std::fmt::Formatter) -> Result<(), ::std::fmt::Error> { fmt.debug_struct(\""@
        + schema.builder@ + "\")"@ + paired(
        stores(schema.required@),
        stores(schema.required@),
        ".field(\""@,
        "\", &self."@,
        ")"@,
    ) + paired(
        stores(schema.optional@),
        stores(schema.optional@),
        ".field(\""@,
        "\", &self."@,
        ")"@,
    ) + ".finish() } } "@
}

/// What the finalizer returns: the record, or a result where the validator
/// has an error type.
pub open spec fn return_text(schema: Schema) -> Seq<char> {
    match schema.error {
        Some(error) => "Result<"@ + schema.record@ + ty_generics_text(schema.generics@) + ", "@
            + error@ + ">"@,
        None => schema.record@ + ty_generics_text(schema.generics@),
    }
}

/// The finalizer: only the builder in which every marker is set has it. It
/// takes the value out of every slot, makes the record and hands it to the
/// validator.
#[verifier::opaque]
pub open spec fn finalizer_text(schema: Schema) -> Seq<char> {
    "impl"@ + impl_generics_text(schema.generics@) + " "@ + schema.builder@ + ty_generics_text(
        builder_generics(schema, uniform(schema.required@.len(), MarkerArg::Given)),
    ) + where_text(schema.generics@) + " { "@ + vis_text(*schema.vis) + "fn "@ + schema.finalizer@
        + "(self) -> "@ + return_text(schema) + " { "@ + schema.validator@ + "("@ + schema.record@
        + " { "@ + paired(
        field_names(schema, schema.required@),
        stores(schema.required@),
        ""@,
        ": self."@,
        ".expect(\"Type parameters should ensure that there is always value.\"), "@,
    ) + paired(
        field_names(schema, schema.optional@),
        stores(schema.optional@),
        ""@,
        ": self."@,
        ", "@,
    ) + "}) } } "@
}

fn module_piece(schema: &Schema, parts: &Parts) -> (text: String)
    requires
        parts.of(*schema),
    ensures
        text@ == module_text(*schema),
{
    proof {
        reveal(module_text);
    }
    let mut text = String::from_str("#[doc(hidden)] #[allow(unused)] ");
    text.append(parts.vis.as_str());
    text.append("mod ");
    text.append(schema.module.as_str());
    text.append(" { pub struct O; pub struct I; pub fn id<T>(t: T) -> T { t } } ");
    text
}

fn struct_piece(schema: &Schema, parts: &Parts) -> (text: String)
    requires
        parts.of(*schema),
    ensures
        text@ == struct_text(*schema),
{
    proof {
        reveal(struct_text);
    }
    let mut text = parts.vis.clone();
    text.append("struct ");
    text.append(schema.builder.as_str());
    text.append(parts.open_impl.as_str());
    text.append(parts.where_clause.as_str());
    text.append(" { _marker: ::std::marker::PhantomData<(");
    append_separated(&mut text, &parts.marker_names, ", ");
    text.append(")>, ");
    append_paired(&mut text, &parts.required_stores, &parts.required_types, "", ": ", ", ");
    append_paired(&mut text, &parts.optional_stores, &parts.optional_types, "", ": ", ", ");
    text.append("} ");
    text
}

fn constructor_piece(schema: &Schema, parts: &Parts) -> (text: String)
    requires
        parts.of(*schema),
    ensures
        text@ == constructor_text(*schema),
{
    proof {
        reveal(constructor_text);
    }
    let pattern = start_markers(schema.required.len());
    let generics = extended(
        schema.generics.duplicate(),
        marker_params(&pattern, schema.module.as_str()),
    );
    let start = ty_generics(&generics);
    let mut text = String::from_str("impl");
    text.append(parts.record_impl.as_str());
    text.append(" ");
    text.append(schema.builder.as_str());
    text.append(start.as_str());
    text.append(parts.where_clause.as_str());
    text.append(" { ");
    text.append(parts.vis.as_str());
    text.append("fn ");
    text.append(schema.constructor.as_str());
    text.append("() -> ");
    text.append(schema.builder.as_str());
    text.append(start.as_str());
    text.append(" { ");
    text.append(schema.builder.as_str());
    text.append(" { _marker: ::std::marker::PhantomData, ");
    append_wrapped(&mut text, &parts.required_stores, "", ": None, ");
    append_wrapped(&mut text, &parts.optional_stores, "", ": None, ");
    text.append("} } } ");
    text
}

fn clone_piece(schema: &Schema, parts: &Parts) -> (text: String)
    requires
        parts.of(*schema),
    ensures
        text@ == clone_text(*schema),
{
    proof {
        reveal(clone_text);
    }
    let mut segments: Vec<String> = Vec::new();
    segments.push(String::from_str("Clone"));
    let bound = ty_param_bound(segments, Globalization::Local);
    proof {
        assert(texts(bound.segments@) =~= seq!["Clone"@]);
        assert(bound_text(bound.global, texts(bound.segments@)) == "Clone"@);
    }
    let pattern = open_markers(schema.required.len());
    let generics = extended(
        bound_all(schema.generics, &bound),
        marker_params(&pattern, schema.module.as_str()),
    );
    let mut text = String::from_str("impl");
    text.append(impl_generics(&generics).as_str());
    text.append(" Clone for ");
    text.append(schema.builder.as_str());
    text.append(parts.open_ty.as_str());
    text.append(parts.where_clause.as_str());
    text.append(" { fn clone(&self) -> Self { ");
    text.append(schema.builder.as_str());
    text.append(" { _marker: ::std::marker::PhantomData, ");
    append_paired(
        &mut text,
        &parts.required_stores,
        &parts.required_stores,
        "",
        ": self.",
        ".clone(), ",
    );
    append_paired(
        &mut text,
        &parts.optional_stores,
        &parts.optional_stores,
        "",
        ": self.",
        ".clone(), ",
    );
    text.append("} } } ");
    text
}

/// The path `::std::fmt::Debug` as its segments are joined.
proof fn lemma_debug_path()
    ensures
        bound_text(true, seq!["std"@, "fmt"@, "Debug"@]) == "::std::fmt::Debug"@,
{
    reveal_strlit("::std::fmt::Debug");
    reveal_strlit("::");
    reveal_strlit("std");
    reveal_strlit("fmt");
    reveal_strlit("Debug");
    let segments = seq!["std"@, "fmt"@, "Debug"@];
    assert(segments.drop_last() =~= seq!["std"@, "fmt"@]);
    assert(segments.drop_last().drop_last() =~= seq!["std"@]);
    reveal_with_fuel(separated, 3);
    assert(separated(segments, "::"@) =~= "std"@ + "::"@ + "fmt"@ + "::"@ + "Debug"@);
    assert(bound_text(true, segments) =~= "::std::fmt::Debug"@);
}

fn debug_piece(schema: &Schema, parts: &Parts) -> (text: String)
    requires
        parts.of(*schema),
    ensures
        text@ == debug_text(*schema),
{
    proof {
        reveal(debug_text);
    }
    let mut segments: Vec<String> = Vec::new();
    segments.push(String::from_str("std"));
    segments.push(String::from_str("fmt"));
    segments.push(String::from_str("Debug"));
    let bound = ty_param_bound(segments, Globalization::Global);
    proof {
        assert(texts(bound.segments@) =~= seq!["std"@, "fmt"@, "Debug"@]);
        lemma_debug_path();
    }
    let pattern = open_markers(schema.required.len());
    let generics = extended(
        bound_all(schema.generics, &bound),
        marker_params(&pattern, schema.module.as_str()),
    );
    let mut text = String::from_str("impl");
    text.append(impl_generics(&generics).as_str());
    text.append(" ::std::fmt::Debug for ");
    text.append(schema.builder.as_str());
    text.append(parts.open_ty.as_str());
    text.append(parts.where_clause.as_str());
    text.append(
        " { fn fmt(&self, fmt: &mut ::std::fmt::Formatter) -> Result<(), ::std::fmt::Error> { fmt.debug_struct(\"",
    );
    text.append(schema.builder.as_str());
    text.append("\")");
    append_paired(
        &mut text,
        &parts.required_stores,
        &parts.required_stores,
        ".field(\"",
        "\", &self.",
        ")",
    );
    append_paired(
        &mut text,
        &parts.optional_stores,
        &parts.optional_stores,
        ".field(\"",
        "\", &self.",
        ")",
    );
    text.append(".finish() } } ");
    text
}

fn return_piece(schema: &Schema, parts: &Parts) -> (text: String)
    requires
        parts.of(*schema),
    ensures
        text@ == return_text(*schema),
{
    match &schema.error {
        Some(error) => {
            let mut text = String::from_str("Result<");
            text.append(schema.record.as_str());
            text.append(parts.record_ty.as_str());
            text.append(", ");
            text.append(error.as_str());
            text.append(">");
            text
        },
        None => {
            let mut text = schema.record.clone();
            text.append(parts.record_ty.as_str());
            text
        },
    }
}

fn finalizer_piece(schema: &Schema, parts: &Parts) -> (text: String)
    requires
        parts.of(*schema),
    ensures
        text@ == finalizer_text(*schema),
{
    proof {
        reveal(finalizer_text);
    }
    let pattern = end_markers(schema.required.len());
    let generics = extended(
        schema.generics.duplicate(),
        marker_params(&pattern, schema.module.as_str()),
    );
    let mut text = String::from_str("impl");
    text.append(parts.record_impl.as_str());
    text.append(" ");
    text.append(schema.builder.as_str());
    text.append(ty_generics(&generics).as_str());
    text.append(parts.where_clause.as_str());
    text.append(" { ");
    text.append(parts.vis.as_str());
    text.append("fn ");
    text.append(schema.finalizer.as_str());
    text.append("(self) -> ");
    text.append(return_piece(schema, parts).as_str());
    text.append(" { ");
    text.append(schema.validator.as_str());
    text.append("(");
    text.append(schema.record.as_str());
    text.append(" { ");
    append_paired(
        &mut text,
        &parts.required_names,
        &parts.required_stores,
        "",
        ": self.",
        ".expect(\"Type parameters should ensure that there is always value.\"), ",
    );
    append_paired(&mut text, &parts.optional_names, &parts.optional_stores, "", ": self.", ", ");
    text.append("}) } } ");
    text
}


/// The setter of the optional field in `slot`: every builder has it,
/// whatever has been given; it takes a value of the type inside the field's
/// type and returns a builder of the same type.
#[verifier::opaque]
pub open spec fn optional_setter_text(schema: Schema, slot: int) -> Seq<char> {
    let place = schema.optional@[slot];
    let field = schema.fields@[place as int];
    let open = builder_generics(schema, open_pattern(schema));
    "impl"@ + impl_generics_text(open) + " "@ + schema.builder@ + ty_generics_text(open)
        + where_text(schema.generics@) + " { "@ + vis_text(*schema.vis) + "fn "@ + field.setter@
        + "(mut self, "@ + field.name@ + ": "@ + field.ty.held()->0.text@ + ") -> "@
        + schema.builder@ + ty_generics_text(open) + " { self."@ + store_name(place as nat)
        + " = Some("@ + field.name@ + "); self } } "@
}

/// The setter of the required field in `slot`: only the builders in which
/// the marker of this field is unset have it, whatever the other markers
/// are, and it returns the builder in which this marker is set and the others
/// are as they were. It writes its own slot and moves the others over.
#[verifier::opaque]
pub open spec fn required_setter_text(schema: Schema, slot: int) -> Seq<char> {
    let place = schema.required@[slot];
    let field = schema.fields@[place as int];
    let others = stores(schema.required@).remove(slot);
    "impl"@ + impl_generics_text(
        with_params(schema.generics@, place_views(other_places(schema.required@.len(), slot))),
    ) + " "@ + schema.builder@ + ty_generics_text(
        builder_generics(schema, Call::Required(slot as nat).receiver(schema.required@.len())),
    ) + where_text(schema.generics@) + " { "@ + vis_text(*schema.vis) + "fn "@ + field.setter@
        + "(self, "@ + field.name@ + ": "@ + field.ty.text@ + ") -> "@ + schema.builder@
        + ty_generics_text(
        builder_generics(schema, Call::Required(slot as nat).result(schema.required@.len())),
    ) + " { "@ + schema.builder@ + " { _marker: ::std::marker::PhantomData, "@ + store_name(
        place as nat,
    ) + ": Some("@ + field.name@ + "), "@ + paired(others, others, ""@, ": self."@, ", "@) + paired(
        stores(schema.optional@),
        stores(schema.optional@),
        ""@,
        ": self."@,
        ", "@,
    ) + "} } } "@
}

/// The setters of the first `count` optional fields, by slot.
pub open spec fn optional_setters_text(schema: Schema, count: nat) -> Seq<char>
    decreases count,
{
    if count == 0 {
        Seq::empty()
    } else {
        optional_setters_text(schema, (count - 1) as nat) + optional_setter_text(
            schema,
            count - 1,
        )
    }
}

/// The setters of the first `count` required fields, by slot.
pub open spec fn required_setters_text(schema: Schema, count: nat) -> Seq<char>
    decreases count,
{
    if count == 0 {
        Seq::empty()
    } else {
        required_setters_text(schema, (count - 1) as nat) + required_setter_text(
            schema,
            count - 1,
        )
    }
}

/// The copy, where the schema asks for one.
pub open spec fn copy_text(schema: Schema) -> Seq<char> {
    if schema.copy {
        clone_text(schema)
    } else {
        Seq::empty()
    }
}

/// The inspection, where the schema asks for one.
pub open spec fn inspect_text(schema: Schema) -> Seq<char> {
    if schema.inspect {
        debug_text(schema)
    } else {
        Seq::empty()
    }
}

/// The whole text of the builder for `schema`.
pub open spec fn rendered(schema: Schema) -> Seq<char> {
    module_text(schema) + struct_text(schema) + constructor_text(schema) + copy_text(schema)
        + inspect_text(schema) + finalizer_text(schema) + optional_setters_text(
        schema,
        schema.optional@.len(),
    ) + required_setters_text(schema, schema.required@.len())
}

fn optional_setter_piece(schema: &Schema, parts: &Parts, slot: usize) -> (text: String)
    requires
        schema.well_formed(),
        parts.of(*schema),
        slot < schema.optional@.len(),
    ensures
        text@ == optional_setter_text(*schema, slot as int),
{
    proof {
        reveal(optional_setter_text);
    }
    let place = schema.optional[slot];
    assert(schema.optional@[slot as int] < schema.fields@.len());
    let field = &schema.fields[place];
    let held = match unwrap_from_option(field.ty) {
        Some(inner) => inner.text.clone(),
        None => unreached(),
    };
    let mut text = String::from_str("impl");
    text.append(parts.open_impl.as_str());
    text.append(" ");
    text.append(schema.builder.as_str());
    text.append(parts.open_ty.as_str());
    text.append(parts.where_clause.as_str());
    text.append(" { ");
    text.append(parts.vis.as_str());
    text.append("fn ");
    text.append(field.setter.as_str());
    text.append("(mut self, ");
    text.append(field.name.as_str());
    text.append(": ");
    text.append(held.as_str());
    text.append(") -> ");
    text.append(schema.builder.as_str());
    text.append(parts.open_ty.as_str());
    text.append(" { self.");
    text.append(join("_f", decimal(place).as_str()).as_str());
    text.append(" = Some(");
    text.append(field.name.as_str());
    text.append("); self } } ");
    text
}

/// The items of a list but the one at `skip`.
fn without(items: &Vec<String>, skip: usize) -> (rest: Vec<String>)
    requires
        skip < items@.len(),
    ensures
        rest@.len() == items@.len() - 1,
        texts(rest@) == texts(items@).remove(skip as int),
{
    let mut rest: Vec<String> = Vec::new();
    let mut i: usize = 0;
    while i < items.len()
        invariant
            i <= items.len(),
            skip < items@.len(),
            rest@.len() == if i <= skip {
                i as int
            } else {
                i - 1
            },
            forall|k: int| 0 <= k < skip && k < i ==> rest@[k]@ == items@[k]@,
            forall|k: int| skip <= k < i - 1 ==> rest@[k]@ == items@[k + 1]@,
        decreases items.len() - i,
    {
        if i != skip {
            rest.push(items[i].clone());
        }
        i += 1;
    }
    proof {
        assert(texts(rest@) =~= texts(items@).remove(skip as int));
    }
    rest
}

/// The three lists of parameters of the setter of the required field in
/// `slot`: those that its impl declares, those of the builder it is called
/// on, and those of the builder it returns.
fn setter_generics(schema: &Schema, slot: usize) -> (written: (String, String, String))
    requires
        slot < schema.required@.len(),
    ensures
        written.0@ == impl_generics_text(
            with_params(
                schema.generics@,
                place_views(other_places(schema.required@.len(), slot as int)),
            ),
        ),
        written.1@ == ty_generics_text(
            builder_generics(
                *schema,
                Call::Required(slot as nat).receiver(schema.required@.len()),
            ),
        ),
        written.2@ == ty_generics_text(
            builder_generics(*schema, Call::Required(slot as nat).result(schema.required@.len())),
        ),
{
    let required = schema.required.len();
    let places = other_markers(required, slot);
    proof {
        assert(places@ =~= other_places(required as nat, slot as int));
    }
    let declared = extended(schema.generics.duplicate(), place_params(&places));
    let (before, after) = setter_markers(required, slot);
    let receiver = extended(
        schema.generics.duplicate(),
        marker_params(&before, schema.module.as_str()),
    );
    let result = extended(
        schema.generics.duplicate(),
        marker_params(&after, schema.module.as_str()),
    );
    (impl_generics(&declared), ty_generics(&receiver), ty_generics(&result))
}

fn required_setter_piece(schema: &Schema, parts: &Parts, slot: usize) -> (text: String)
    requires
        schema.well_formed(),
        parts.of(*schema),
        slot < schema.required@.len(),
    ensures
        text@ == required_setter_text(*schema, slot as int),
{
    proof {
        reveal(required_setter_text);
    }
    let place = schema.required[slot];
    assert(schema.required@[slot as int] < schema.fields@.len());
    let field = &schema.fields[place];
    let (declared, receiver, result) = setter_generics(schema, slot);
    let others = without(&parts.required_stores, slot);
    let mut text = String::from_str("impl");
    text.append(declared.as_str());
    text.append(" ");
    text.append(schema.builder.as_str());
    text.append(receiver.as_str());
    text.append(parts.where_clause.as_str());
    text.append(" { ");
    text.append(parts.vis.as_str());
    text.append("fn ");
    text.append(field.setter.as_str());
    text.append("(self, ");
    text.append(field.name.as_str());
    text.append(": ");
    text.append(field.ty.text.as_str());
    text.append(") -> ");
    text.append(schema.builder.as_str());
    text.append(result.as_str());
    text.append(" { ");
    text.append(schema.builder.as_str());
    text.append(" { _marker: ::std::marker::PhantomData, ");
    text.append(join("_f", decimal(place).as_str()).as_str());
    text.append(": Some(");
    text.append(field.name.as_str());
    text.append("), ");
    append_paired(&mut text, &others, &others, "", ": self.", ", ");
    append_paired(
        &mut text,
        &parts.optional_stores,
        &parts.optional_stores,
        "",
        ": self.",
        ", ",
    );
    text.append("} } } ");
    text
}

/// Writes the builder for `schema`: the module of the markers, the builder
/// type, the constructor, the copy and the inspection where they are asked
/// for, the finalizer, and the setters, those of the optional fields first.
pub fn render(schema: &Schema) -> (text: String)
    requires
        schema.well_formed(),
    ensures
        text@ == rendered(*schema),
{
    let parts = parts_of(schema);
    let mut text = module_piece(schema, &parts);
    text.append(struct_piece(schema, &parts).as_str());
    text.append(constructor_piece(schema, &parts).as_str());
    if schema.copy {
        text.append(clone_piece(schema, &parts).as_str());
    } else {
        proof {
            assert(text@ + copy_text(*schema) =~= text@);
        }
    }
    if schema.inspect {
        text.append(debug_piece(schema, &parts).as_str());
    } else {
        proof {
            assert(text@ + inspect_text(*schema) =~= text@);
        }
    }
    text.append(finalizer_piece(schema, &parts).as_str());
    let ghost base = text@;
    let mut j: usize = 0;
    proof {
        assert(base + optional_setters_text(*schema, 0) =~= base);
    }
    while j < schema.optional.len()
        invariant
            j <= schema.optional.len(),
            schema.well_formed(),
            parts.of(*schema),
            text@ == base + optional_setters_text(*schema, j as nat),
        decreases schema.optional.len() - j,
    {
        text.append(optional_setter_piece(schema, &parts, j).as_str());
        proof {
            assert(text@ =~= base + optional_setters_text(*schema, (j + 1) as nat));
        }
        j += 1;
    }
    let ghost middle = text@;
    let mut i: usize = 0;
    proof {
        assert(middle + required_setters_text(*schema, 0) =~= middle);
    }
    while i < schema.required.len()
        invariant
            i <= schema.required.len(),
            schema.well_formed(),
            parts.of(*schema),
            text@ == middle + required_setters_text(*schema, i as nat),
        decreases schema.required.len() - i,
    {
        text.append(required_setter_piece(schema, &parts, i).as_str());
        proof {
            assert(text@ =~= middle + required_setters_text(*schema, (i + 1) as nat));
        }
        i += 1;
    }
    text
}

/// The setters of two schemas of one declaration read the same.
proof fn lemma_same_setters(decl: Declaration, one: Schema, other: Schema, count: nat)
    requires
        one.describes(decl),
        one.well_formed(),
        other.describes(decl),
        other.well_formed(),
    ensures
        count <= one.optional@.len() ==> optional_setters_text(one, count)
            == optional_setters_text(other, count),
        count <= one.required@.len() ==> required_setters_text(one, count)
            == required_setters_text(other, count),
    decreases count,
{
    law_one_schema_per_declaration(decl, one, other);
    if count > 0 {
        lemma_same_setters(decl, one, other, (count - 1) as nat);
        let slot = count - 1;
        if count <= one.optional@.len() {
            reveal(optional_setter_text);
            let place = one.optional@[slot] as int;
            assert(one.fields@[place].name@ == other.fields@[place].name@);
        }
        if count <= one.required@.len() {
            reveal(required_setter_text);
            let place = one.required@[slot] as int;
            assert(one.fields@[place].name@ == other.fields@[place].name@);
        }
    }
}

/// A declaration has one text: whatever schema describes it, what is written
/// for the schema is the same.
pub proof fn law_one_text_per_declaration(decl: Declaration, one: Schema, other: Schema)
    requires
        one.describes(decl),
        one.well_formed(),
        other.describes(decl),
        other.well_formed(),
    ensures
        rendered(one) == rendered(other),
{
    law_one_schema_per_declaration(decl, one, other);
    lemma_same_setters(decl, one, other, one.optional@.len());
    lemma_same_setters(decl, one, other, one.required@.len());
    assert(required_types(one) =~= required_types(other)) by {
        assert forall|j: int| 0 <= j < one.required@.len() implies required_types(one)[j]
            == required_types(other)[j] by {
            let place = one.required@[j] as int;
            assert(*one.fields@[place].ty == *other.fields@[place].ty);
        }
    }
    assert(optional_types(one) =~= optional_types(other)) by {
        assert forall|j: int| 0 <= j < one.optional@.len() implies optional_types(one)[j]
            == optional_types(other)[j] by {
            let place = one.optional@[j] as int;
            assert(*one.fields@[place].ty == *other.fields@[place].ty);
        }
    }
    assert(field_names(one, one.required@) =~= field_names(other, other.required@)) by {
        assert forall|j: int| 0 <= j < one.required@.len() implies field_names(
            one,
            one.required@,
        )[j] == field_names(other, other.required@)[j] by {
            let place = one.required@[j] as int;
            assert(one.fields@[place].name@ == other.fields@[place].name@);
        }
    }
    assert(field_names(one, one.optional@) =~= field_names(other, other.optional@)) by {
        assert forall|j: int| 0 <= j < one.optional@.len() implies field_names(
            one,
            one.optional@,
        )[j] == field_names(other, other.optional@)[j] by {
            let place = one.optional@[j] as int;
            assert(one.fields@[place].name@ == other.fields@[place].name@);
        }
    }
    assert(module_text(one) == module_text(other)) by {
        reveal(module_text);
    }
    assert(struct_text(one) == struct_text(other)) by {
        reveal(struct_text);
    }
    assert(constructor_text(one) == constructor_text(other)) by {
        reveal(constructor_text);
    }
    assert(copy_text(one) == copy_text(other)) by {
        reveal(clone_text);
    }
    assert(inspect_text(one) == inspect_text(other)) by {
        reveal(debug_text);
    }
    assert(finalizer_text(one) == finalizer_text(other)) by {
        reveal(finalizer_text);
    }
}

/// Hands its argument back. It marks the place where the generated text
/// leaves the generator, for whoever wants to look at it there.
#[inline(always)]
pub fn debug_display<T>(t: T) -> (same: T)
    ensures
        same == t,
{
    t
}


/// Generates the builder for a declaration: reads the schema off the
/// declaration and its directives and writes the builder for it. Where the
/// declaration or a directive is at fault, nothing is written and the error
/// says what is wrong.
pub fn create_builder(decl: &Declaration) -> (generated: Result<String, GenError>)
    ensures
        match generated {
            Ok(text) => derivation_error(*decl) is None && exists|schema: Schema|
                schema.describes(*decl) && schema.well_formed() && text@ == rendered(schema),
            Err(e) => derivation_error(*decl) == Some(e),
        },
{
    match Schema::derive(decl) {
        Ok(schema) => {
            let text = debug_display(render(&schema));
            Ok(text)
        },
        Err(e) => Err(e),
    }
}

} // verus!
