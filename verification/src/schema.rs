//! The schema of a builder: what is settled about it once the declaration
//! and its directives have been read.

use vstd::prelude::*;
use vstd::string::*;
use crate::decl::{is_option, unwrap_from_option, Body, Declaration, Field, Generics, Ty, Visibility};
use crate::directive::{
    builder_names, get_builder_names, get_derives, get_setter_prefix, get_validator, lists_named,
    setter_prefix, validator, words_named,
};
use crate::error::GenError;
use crate::outside::{lowercase, to_lowercase};
use crate::text::{decimal, decimal_text, join, text_is};

verus! {

/// How many of the flags equal `flag`.
pub open spec fn count_flag(flags: Seq<bool>, flag: bool) -> nat
    decreases flags.len(),
{
    if flags.len() == 0 {
        0
    } else {
        count_flag(flags.drop_last(), flag) + if flags.last() == flag {
            1nat
        } else {
            0nat
        }
    }
}

/// For each field, whether it is required.
pub open spec fn required_flags(fields: Seq<Field>) -> Seq<bool> {
    Seq::new(fields.len(), |k: int| !fields[k].ty.optional())
}

/// The place of field `k` among the fields of its kind: how many required
/// fields stand before a required one, how many optional ones before an
/// optional one.
pub open spec fn slot_of(fields: Seq<Field>, k: int) -> nat {
    count_flag(required_flags(fields).take(k), required_flags(fields)[k])
}

/// The name of field `k`; a field without a name is called by its slot.
pub open spec fn name_of(fields: Seq<Field>, k: int) -> Seq<char> {
    match fields[k].ident {
        Some(name) => name@,
        None => decimal_text(slot_of(fields, k)),
    }
}

/// The name of the setter of field `k`, where `prefix` is the prefix that
/// the record asks for.
pub open spec fn setter_of(fields: Seq<Field>, k: int, prefix: Seq<char>) -> Seq<char> {
    match setter_prefix(fields[k].attrs@, prefix) {
        Ok(own) => own + name_of(fields, k),
        Err(_) => prefix + name_of(fields, k),
    }
}

/// What is wrong with one field, if anything.
pub open spec fn field_error(field: Field, prefix: Seq<char>) -> Option<GenError> {
    if field.ty.optional() && field.ty.held() is None {
        Some(GenError::MissingInnerType)
    } else {
        match setter_prefix(field.attrs@, prefix) {
            Ok(_) => None,
            Err(e) => Some(e),
        }
    }
}

/// The error of the first field of the given kind that has one.
pub open spec fn first_error(fields: Seq<Field>, prefix: Seq<char>, required: bool) -> Option<
    GenError,
>
    decreases fields.len(),
{
    if fields.len() == 0 {
        None
    } else {
        match first_error(fields.drop_last(), prefix, required) {
            Some(e) => Some(e),
            None => if fields.last().ty.optional() != required {
                field_error(fields.last(), prefix)
            } else {
                None
            },
        }
    }
}

/// The name of the module that holds the markers of the builder `builder`.
pub open spec fn module_of(builder: Seq<char>) -> Seq<char> {
    "_"@ + lowercase(builder)
}

/// The validator that stands in where the directives name none: the
/// identity, which the marker module holds.
pub open spec fn default_validator(builder: Seq<char>) -> Seq<char> {
    module_of(builder) + "::id"@
}

/// Why no schema can be had from a declaration, if there is a reason. The
/// record's own directives are judged first, in the order names, prefix,
/// validation; then the optional fields in their order, then the required
/// ones.
pub open spec fn derivation_error(decl: Declaration) -> Option<GenError> {
    match decl.body {
        Body::Other => Some(GenError::NotARecord),
        Body::Record(fields) => match builder_names(decl.attrs@) {
            Err(e) => Some(e),
            Ok(names) => match setter_prefix(decl.attrs@, ""@) {
                Err(e) => Some(e),
                Ok(prefix) => match validator(decl.attrs@, default_validator(names.0)) {
                    Err(e) => Some(e),
                    Ok(_) => match first_error(fields@, prefix, false) {
                        Some(e) => Some(e),
                        None => first_error(fields@, prefix, true),
                    },
                },
            },
        },
    }
}

/// Where a setter puts its value, or where a field of the record takes its
/// value from.
#[derive(Clone, Copy, Debug, PartialEq, Eq, Structural)]
pub enum Target {
    /// The slot of a required field, which is also the place of its marker.
    Required(usize),
    /// The slot of an optional field.
    Optional(usize),
}

/// What is settled about one field.
#[derive(Debug)]
pub struct FieldSpec<'a> {
    /// The name of the field.
    pub name: String,
    /// The type that the declaration gives it.
    pub ty: &'a Ty,
    /// Whether a value must be given before the record can be made.
    pub required: bool,
    /// The name of its setter: the prefix and the name of the field.
    pub setter: String,
    /// Its place among the fields of its kind.
    pub slot: usize,
}

impl<'a> FieldSpec<'a> {
    /// Whether this is what field `k` of the declaration comes to.
    pub open spec fn describes(self, fields: Seq<Field>, k: int, prefix: Seq<char>) -> bool {
        &&& self.name@ == name_of(fields, k)
        &&& *self.ty == fields[k].ty
        &&& self.required == !fields[k].ty.optional()
        &&& self.setter@ == setter_of(fields, k, prefix)
        &&& self.slot == slot_of(fields, k)
    }

    /// Where the value of this field is kept.
    pub open spec fn target(self) -> Target {
        if self.required {
            Target::Required(self.slot)
        } else {
            Target::Optional(self.slot)
        }
    }
}

/// What is settled about a builder. The order of the fields is that of the
/// declaration; it fixes the places of the markers and never changes.
#[derive(Debug)]
pub struct Schema<'a> {
    /// The name of the record.
    pub record: &'a String,
    pub vis: &'a Visibility,
    /// The parameters of the record, which the builder takes over.
    pub generics: &'a Generics,
    pub fields: Vec<FieldSpec<'a>>,
    /// The places of the required fields among the fields, by slot.
    pub required: Vec<usize>,
    /// The places of the optional fields among the fields, by slot.
    pub optional: Vec<usize>,
    /// The name of the builder type.
    pub builder: String,
    /// The name of the constructor.
    pub constructor: String,
    /// The name of the finalizer.
    pub finalizer: String,
    /// The name of the module that holds the markers.
    pub module: String,
    /// Whether the builder can be copied.
    pub copy: bool,
    /// Whether the builder can be inspected.
    pub inspect: bool,
    /// The path of the validator, in the words in which the parser read it.
    pub validator: String,
    /// The path of the error type of the validator, where it has one.
    pub error: Option<String>,
}

/// What a schema amounts to once every name is taken out of it.
pub struct Shape {
    /// For each field, whether it is required.
    pub kinds: Seq<bool>,
    pub copy: bool,
    pub inspect: bool,
    /// Whether the finalizer can fail.
    pub fallible: bool,
}

impl<'a> Schema<'a> {
    /// For each field, whether it is required.
    pub open spec fn kinds(self) -> Seq<bool> {
        Seq::new(self.fields@.len(), |k: int| self.fields@[k].required)
    }

    /// The schema without its names.
    pub open spec fn shape(self) -> Shape {
        Shape {
            kinds: self.kinds(),
            copy: self.copy,
            inspect: self.inspect,
            fallible: self.error is Some,
        }
    }

    /// Every field has the slot that its place among the fields of its kind
    /// gives it, and the two lists of places lead from each slot back to its
    /// field. The number of required fields is the length of the marker
    /// vector.
    pub open spec fn well_formed(self) -> bool {
        &&& forall|k: int|
            0 <= k < self.fields@.len() ==> (#[trigger] self.fields@[k]).slot == count_flag(
                self.kinds().take(k),
                self.fields@[k].required,
            )
        &&& forall|k: int|
            0 <= k < self.fields@.len() && !(#[trigger] self.fields@[k]).required
                ==> self.fields@[k].ty.held() is Some
        &&& self.required@.len() == count_flag(self.kinds(), true)
        &&& self.optional@.len() == count_flag(self.kinds(), false)
        &&& forall|slot: int|
            0 <= slot < self.required@.len() ==> {
                let k = #[trigger] self.required@[slot];
                k < self.fields@.len() && self.fields@[k as int].required
                    && self.fields@[k as int].slot == slot
            }
        &&& forall|slot: int|
            0 <= slot < self.optional@.len() ==> {
                let k = #[trigger] self.optional@[slot];
                k < self.fields@.len() && !self.fields@[k as int].required
                    && self.fields@[k as int].slot == slot
            }
    }

    /// Whether this is the schema that the declaration and its directives
    /// ask for.
    pub open spec fn describes(self, decl: Declaration) -> bool {
        &&& decl.body matches Body::Record(fields)
        &&& builder_names(decl.attrs@) matches Ok(names)
        &&& setter_prefix(decl.attrs@, ""@) matches Ok(prefix)
        &&& validator(decl.attrs@, default_validator(names.0)) matches Ok(checked)
        &&& *self.record == decl.ident
        &&& *self.vis == decl.vis
        &&& *self.generics == decl.generics
        &&& self.builder@ == names.0
        &&& self.constructor@ == names.1
        &&& self.finalizer@ == names.2
        &&& self.module@ == module_of(names.0)
        &&& self.copy == words_named(decl.attrs@, "builder_derive"@).contains("Clone"@)
        &&& self.inspect == words_named(decl.attrs@, "builder_derive"@).contains("Debug"@)
        &&& self.validator@ == checked.0
        &&& match self.error {
            Some(path) => checked.1 == Some(path@),
            None => checked.1 is None,
        }
        &&& self.fields@.len() == fields@.len()
        &&& forall|k: int|
            0 <= k < fields@.len() ==> (#[trigger] self.fields@[k]).describes(fields@, k, prefix)
    }
}

/// Where no field of a kind has an error, each field of that kind has none.
pub proof fn lemma_no_error(fields: Seq<Field>, prefix: Seq<char>, required: bool, k: int)
    requires
        first_error(fields, prefix, required) is None,
        0 <= k < fields.len(),
        fields[k].ty.optional() != required,
    ensures
        field_error(fields[k], prefix) is None,
    decreases fields.len(),
{
    if k < fields.len() - 1 {
        lemma_no_error(fields.drop_last(), prefix, required, k);
    }
}

/// The kinds and the slots of a schema that describes a declaration are
/// those of the declaration's fields.
pub proof fn lemma_described_schema(schema: Schema, decl: Declaration)
    requires
        schema.describes(decl),
    ensures
        decl.body matches Body::Record(fields) && schema.kinds() == required_flags(fields@),
        forall|k: int|
            0 <= k < schema.fields@.len() ==> (#[trigger] schema.fields@[k]).slot == count_flag(
                schema.kinds().take(k),
                schema.fields@[k].required,
            ),
{
    let fields = decl.body->Record_0;
    assert(schema.kinds() =~= required_flags(fields@));
}

impl<'a> Schema<'a> {
    /// Reads the schema of a builder off a declaration, or says why there is
    /// none.
    pub fn derive(decl: &'a Declaration) -> (derived: Result<Schema<'a>, GenError>)
        ensures
            match derived {
                Ok(schema) => derivation_error(*decl) is None && schema.describes(*decl)
                    && schema.well_formed(),
                Err(e) => derivation_error(*decl) == Some(e),
            },
    {
        let fields = match &decl.body {
            Body::Record(fields) => fields,
            Body::Other => {
                return Err(GenError::NotARecord);
            },
        };
        let (builder, constructor, finalizer) = match get_builder_names(&decl.attrs) {
            Ok(names) => names,
            Err(e) => {
                return Err(e);
            },
        };
        let prefix = match get_setter_prefix(&decl.attrs, String::from_str("")) {
            Ok(prefix) => prefix,
            Err(e) => {
                return Err(e);
            },
        };
        let derives = get_derives(&decl.attrs);
        let lower = to_lowercase(builder.as_str());
        let module = join("_", lower.as_str());
        let (validator, error) = match get_validator(
            &decl.attrs,
            join(module.as_str(), "::id"),
        ) {
            Ok(found) => found,
            Err(e) => {
                return Err(e);
            },
        };
        let copy = derives.contains("Clone");
        let inspect = derives.contains("Debug");
        let mut specs: Vec<FieldSpec<'a>> = Vec::new();
        let mut required_places: Vec<usize> = Vec::new();
        let mut optional_places: Vec<usize> = Vec::new();
        let mut required: usize = 0;
        let mut optional: usize = 0;
        let mut required_error: Option<GenError> = None;
        let mut optional_error: Option<GenError> = None;
        let ghost flags = required_flags(fields@);
        let mut i: usize = 0;
        while i < fields.len()
            invariant
                i <= fields.len(),
                flags == required_flags(fields@),
                required == count_flag(flags.take(i as int), true),
                optional == count_flag(flags.take(i as int), false),
                required + optional == i,
                required_error == first_error(fields@.take(i as int), prefix@, true),
                optional_error == first_error(fields@.take(i as int), prefix@, false),
                specs@.len() == i,
                forall|k: int| 0 <= k < i ==> (#[trigger] specs@[k]).describes(fields@, k, prefix@),
                required_places@.len() == required,
                optional_places@.len() == optional,
                forall|slot: int|
                    0 <= slot < required_places@.len() ==> {
                        let k = #[trigger] required_places@[slot];
                        k < i && flags[k as int] && slot_of(fields@, k as int) == slot
                    },
                forall|slot: int|
                    0 <= slot < optional_places@.len() ==> {
                        let k = #[trigger] optional_places@[slot];
                        k < i && !flags[k as int] && slot_of(fields@, k as int) == slot
                    },
            decreases fields.len() - i,
        {
            proof {
                assert(fields@.take(i + 1).drop_last() =~= fields@.take(i as int));
                assert(flags.take(i + 1).drop_last() =~= flags.take(i as int));
            }
            let field = &fields[i];
            let is_required = !is_option(&field.ty);
            let mut problem: Option<GenError> = None;
            if !is_required && unwrap_from_option(&field.ty).is_none() {
                problem = Some(GenError::MissingInnerType);
            }
            let slot = if is_required {
                required
            } else {
                optional
            };
            let name = match &field.ident {
                Some(name) => name.clone(),
                None => decimal(slot),
            };
            let setter = match get_setter_prefix(&field.attrs, prefix.clone()) {
                Ok(own) => join(own.as_str(), name.as_str()),
                Err(e) => {
                    if problem.is_none() {
                        problem = Some(e);
                    }
                    join(prefix.as_str(), name.as_str())
                },
            };
            assert(problem == field_error(*field, prefix@));
            if is_required {
                if required_error.is_none() {
                    required_error = problem;
                }
                required_places.push(i);
                required = required + 1;
            } else {
                if optional_error.is_none() {
                    optional_error = problem;
                }
                optional_places.push(i);
                optional = optional + 1;
            }
            specs.push(FieldSpec { name, ty: &field.ty, required: is_required, setter, slot });
            i += 1;
        }
        proof {
            assert(fields@.take(i as int) =~= fields@);
            assert(flags.take(i as int) =~= flags);
        }
        match optional_error {
            Some(e) => {
                return Err(e);
            },
            None => {},
        }
        match required_error {
            Some(e) => {
                return Err(e);
            },
            None => {},
        }
        let schema = Schema {
            record: &decl.ident,
            vis: &decl.vis,
            generics: &decl.generics,
            fields: specs,
            required: required_places,
            optional: optional_places,
            builder,
            constructor,
            finalizer,
            module,
            copy,
            inspect,
            validator,
            error,
        };
        proof {
            lemma_described_schema(schema, *decl);
            assert forall|k: int|
                0 <= k < schema.fields@.len() && !(#[trigger] schema.fields@[k]).required implies schema.fields@[k].ty.held() is Some by {
                lemma_no_error(fields@, prefix@, false, k);
            }
        }
        Ok(schema)
    }
}


impl<'a> Schema<'a> {
    /// The number of required fields: the length of the marker vector.
    pub fn required_count(&self) -> (count: usize)
        ensures
            count == self.required@.len(),
    {
        self.required.len()
    }

    /// The number of optional fields.
    pub fn optional_count(&self) -> (count: usize)
        ensures
            count == self.optional@.len(),
    {
        self.optional.len()
    }

    /// The slot that the setter called `name` writes: that of the first
    /// field whose setter has this name.
    pub fn setter(&self, name: &str) -> (target: Option<Target>)
        ensures
            match target {
                Some(slot) => exists|k: int|
                    0 <= k < self.fields@.len() && (#[trigger] self.fields@[k]).setter@ == name@
                        && self.fields@[k].target() == slot && forall|j: int|
                        0 <= j < k ==> (#[trigger] self.fields@[j]).setter@ != name@,
                None => forall|k: int|
                    0 <= k < self.fields@.len() ==> (#[trigger] self.fields@[k]).setter@ != name@,
            },
    {
        let mut i: usize = 0;
        while i < self.fields.len()
            invariant
                i <= self.fields.len(),
                forall|j: int| 0 <= j < i ==> (#[trigger] self.fields@[j]).setter@ != name@,
            decreases self.fields.len() - i,
        {
            let field = &self.fields[i];
            if text_is(field.setter.as_str(), name) {
                return Some(
                    if field.required {
                        Target::Required(field.slot)
                    } else {
                        Target::Optional(field.slot)
                    },
                );
            }
            i += 1;
        }
        None
    }

    /// The slot from which the field of the record called `name` takes its
    /// value: that of the first field with this name.
    pub fn field(&self, name: &str) -> (target: Option<Target>)
        ensures
            match target {
                Some(slot) => exists|k: int|
                    0 <= k < self.fields@.len() && (#[trigger] self.fields@[k]).name@ == name@
                        && self.fields@[k].target() == slot && forall|j: int|
                        0 <= j < k ==> (#[trigger] self.fields@[j]).name@ != name@,
                None => forall|k: int|
                    0 <= k < self.fields@.len() ==> (#[trigger] self.fields@[k]).name@ != name@,
            },
    {
        let mut i: usize = 0;
        while i < self.fields.len()
            invariant
                i <= self.fields.len(),
                forall|j: int| 0 <= j < i ==> (#[trigger] self.fields@[j]).name@ != name@,
            decreases self.fields.len() - i,
        {
            let field = &self.fields[i];
            if text_is(field.name.as_str(), name) {
                return Some(
                    if field.required {
                        Target::Required(field.slot)
                    } else {
                        Target::Optional(field.slot)
                    },
                );
            }
            i += 1;
        }
        None
    }
}

/// Counting up to a later place gives no less, and one more for each flag
/// that is counted on the way.
pub proof fn lemma_count_grows(flags: Seq<bool>, from: int, to: int, flag: bool)
    requires
        0 <= from <= to <= flags.len(),
    ensures
        count_flag(flags.take(from), flag) <= count_flag(flags.take(to), flag),
        from < to && flags[from] == flag ==> count_flag(flags.take(from), flag) < count_flag(
            flags.take(to),
            flag,
        ),
    decreases to - from,
{
    if from < to {
        assert(flags.take(to).drop_last() =~= flags.take(to - 1));
        lemma_count_grows(flags, from, to - 1, flag);
    }
}

/// In a well-formed schema every field has a slot of its own, and the slot
/// lies within the slots of its kind.
pub proof fn law_each_field_has_its_slot(schema: Schema, j: int, k: int)
    requires
        schema.well_formed(),
        0 <= j < k < schema.fields@.len(),
    ensures
        schema.fields@[j].target() != schema.fields@[k].target(),
        schema.fields@[k].required ==> schema.fields@[k].slot < schema.required@.len(),
        !schema.fields@[k].required ==> schema.fields@[k].slot < schema.optional@.len(),
{
    let flags = schema.kinds();
    let flag = schema.fields@[k].required;
    assert(flags[k] == flag);
    lemma_count_grows(flags, k, flags.len() as int, flag);
    assert(flags.take(flags.len() as int) =~= flags);
    if schema.fields@[j].required == flag {
        assert(flags[j] == flag);
        lemma_count_grows(flags, j, k, flag);
    }
}

/// A declaration has one schema: two schemas that describe it and are well
/// formed agree on every field and on the places of the slots.
pub proof fn law_one_schema_per_declaration(decl: Declaration, one: Schema, other: Schema)
    requires
        one.describes(decl),
        one.well_formed(),
        other.describes(decl),
        other.well_formed(),
    ensures
        one.required@ == other.required@,
        one.optional@ == other.optional@,
        one.fields@.len() == other.fields@.len(),
        forall|k: int|
            0 <= k < one.fields@.len() ==> {
                let left = #[trigger] one.fields@[k];
                let right = other.fields@[k];
                &&& left.name@ == right.name@
                &&& *left.ty == *right.ty
                &&& left.required == right.required
                &&& left.setter@ == right.setter@
                &&& left.slot == right.slot
            },
        one.kinds() == other.kinds(),
{
    let fields = decl.body->Record_0;
    let prefix = setter_prefix(decl.attrs@, ""@)->Ok_0;
    assert forall|k: int| 0 <= k < one.fields@.len() implies {
        let left = #[trigger] one.fields@[k];
        let right = other.fields@[k];
        &&& left.name@ == right.name@
        &&& *left.ty == *right.ty
        &&& left.required == right.required
        &&& left.setter@ == right.setter@
        &&& left.slot == right.slot
    } by {
        assert(one.fields@[k].describes(fields@, k, prefix));
        assert(other.fields@[k].describes(fields@, k, prefix));
    }
    assert(one.kinds() =~= other.kinds());
    assert forall|slot: int| 0 <= slot < one.required@.len() implies one.required@[slot]
        == other.required@[slot] by {
        let j = one.required@[slot] as int;
        let k = other.required@[slot] as int;
        assert(one.fields@[j].target() == Target::Required(slot as usize));
        assert(other.fields@[k].target() == Target::Required(slot as usize));
        assert(one.fields@[k].target() == other.fields@[k].target());
        if j < k {
            law_each_field_has_its_slot(one, j, k);
        } else if k < j {
            law_each_field_has_its_slot(one, k, j);
        }
    }
    assert(one.required@ =~= other.required@);
    assert forall|slot: int| 0 <= slot < one.optional@.len() implies one.optional@[slot]
        == other.optional@[slot] by {
        let j = one.optional@[slot] as int;
        let k = other.optional@[slot] as int;
        assert(one.fields@[j].target() == Target::Optional(slot as usize));
        assert(other.fields@[k].target() == Target::Optional(slot as usize));
        assert(one.fields@[k].target() == other.fields@[k].target());
        if j < k {
            law_each_field_has_its_slot(one, j, k);
        } else if k < j {
            law_each_field_has_its_slot(one, k, j);
        }
    }
    assert(one.optional@ =~= other.optional@);
}

/// Names are only names: two declarations with the same fields and the same
/// directives on capabilities and on validation give schemas of one shape,
/// whose fields have the same slots, whatever names and prefixes their
/// directives choose.
pub proof fn law_renaming_changes_names_only(
    one: Declaration,
    other: Declaration,
    first: Schema,
    second: Schema,
)
    requires
        first.describes(one),
        second.describes(other),
        one.body matches Body::Record(fields) && other.body matches Body::Record(others)
            && fields@.len() == others@.len() && forall|k: int|
            0 <= k < fields@.len() ==> (#[trigger] fields@[k]).ty == others@[k].ty,
        words_named(one.attrs@, "builder_derive"@) == words_named(
            other.attrs@,
            "builder_derive"@,
        ),
        lists_named(one.attrs@, "builder_validate"@) == lists_named(
            other.attrs@,
            "builder_validate"@,
        ),
    ensures
        first.shape() == second.shape(),
        first.fields@.len() == second.fields@.len(),
        forall|k: int|
            0 <= k < first.fields@.len() ==> (#[trigger] first.fields@[k]).target()
                == second.fields@[k].target(),
{
    let fields = one.body->Record_0;
    let others = other.body->Record_0;
    assert(required_flags(fields@) =~= required_flags(others@)) by {
        assert forall|k: int| 0 <= k < fields@.len() implies required_flags(fields@)[k]
            == required_flags(others@)[k] by {
            assert(fields@[k].ty == others@[k].ty);
        }
    }
    lemma_described_schema(first, one);
    lemma_described_schema(second, other);
    assert forall|k: int| 0 <= k < first.fields@.len() implies (#[trigger] first.fields@[k]).target()
        == second.fields@[k].target() by {
        assert(first.fields@[k].describes(fields@, k, setter_prefix(one.attrs@, ""@)->Ok_0));
        assert(second.fields@[k].describes(others@, k, setter_prefix(other.attrs@, ""@)->Ok_0));
    }
}

} // verus!
