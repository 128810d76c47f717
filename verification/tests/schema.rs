use bob::decl::{
    add_ty_params, is_option, plain_ty_param, priv_field, ty_param_bound,
    unwrap_from_option, wrap_into_option, Body, Declaration, Field, Generics, Globalization, Ty,
    TyParam, Visibility,
};
use bob::directive::{Directive, DirectiveArg, Literal};
use bob::generate::debug_display;
use bob::schema::{Schema, Target};
use bob::GenError;

fn plain(text: &str) -> Ty {
    Ty { text: text.to_owned(), head: Some(text.to_owned()), inner: None }
}

fn option_of(inner: Ty) -> Ty {
    Ty {
        text: format!("Option<{}>", inner.text),
        head: Some("Option".to_owned()),
        inner: Some(Box::new(inner)),
    }
}

fn setting(name: &str, value: &str) -> DirectiveArg {
    DirectiveArg::NameValue(
        name.to_owned(),
        Literal::Str { value: value.to_owned(), cooked: true },
    )
}

fn prefix(value: &str) -> Directive {
    Directive::NameValue(
        "builder_prefix".to_owned(),
        Literal::Str { value: value.to_owned(), cooked: true },
    )
}

fn field(name: &str, ty: Ty, attrs: Vec<Directive>) -> Field {
    Field { ident: Some(name.to_owned()), vis: Visibility::Inherited, attrs, ty }
}

fn unnamed(ty: Ty) -> Field {
    Field { ident: None, vis: Visibility::Inherited, attrs: vec![], ty }
}

fn record(attrs: Vec<Directive>, fields: Vec<Field>) -> Declaration {
    Declaration {
        ident: "Record".to_owned(),
        vis: Visibility::Inherited,
        attrs,
        generics: Generics { lifetimes: vec![], ty_params: vec![], predicates: vec![] },
        body: Body::Record(fields),
    }
}

fn abc() -> Vec<Field> {
    vec![
        field("a", plain("u32"), vec![]),
        field("c", option_of(plain("String")), vec![]),
        field("b", plain("i32"), vec![]),
    ]
}

fn error_of(decl: &Declaration) -> GenError {
    match Schema::derive(decl) {
        Ok(_) => panic!("a schema was derived"),
        Err(error) => error,
    }
}

#[test]
fn a_type_is_optional_by_its_first_segment() {
    assert!(is_option(&option_of(plain("u8"))));
    assert!(!is_option(&plain("u8")));
    assert!(!is_option(&plain("option")));
    assert!(is_option(&plain("Option")));
    assert!(!is_option(&Ty { text: "&'a Option<u8>".to_owned(), head: None, inner: None }));
    assert!(!is_option(&Ty {
        text: "std::option::Option<u8>".to_owned(),
        head: Some("std".to_owned()),
        inner: None,
    }));
}

#[test]
fn the_inner_type_of_an_optional_type() {
    let ty = option_of(plain("u8"));
    assert_eq!(unwrap_from_option(&ty).map(|inner| inner.text.as_str()), Some("u8"));
    assert!(unwrap_from_option(&plain("Option")).is_none());
    assert!(unwrap_from_option(&plain("u8")).is_none());
    let vec = Ty {
        text: "Vec<u8>".to_owned(),
        head: Some("Vec".to_owned()),
        inner: Some(Box::new(plain("u8"))),
    };
    assert!(unwrap_from_option(&vec).is_none());
}

#[test]
fn wrapping_and_unwrapping() {
    let wrapped = wrap_into_option(plain("Vec<i32>"));
    assert_eq!(wrapped.text, "Option<Vec<i32>>");
    assert_eq!(wrapped.head.as_deref(), Some("Option"));
    assert!(is_option(&wrapped));
    assert_eq!(unwrap_from_option(&wrapped).map(|inner| inner.text.as_str()), Some("Vec<i32>"));
    let twice = wrap_into_option(wrapped);
    assert_eq!(twice.text, "Option<Option<Vec<i32>>>");
    let inner = unwrap_from_option(&twice).unwrap();
    assert_eq!(inner.text, "Option<Vec<i32>>");
    assert_eq!(inner.duplicate().text, "Option<Vec<i32>>");
}

#[test]
fn a_plain_type_parameter() {
    let param = plain_ty_param("_0".to_owned());
    assert_eq!(param.ident, "_0");
    assert_eq!(param.attrs, "");
    assert_eq!(param.bounds, "");
    assert_eq!(param.default, None);
}

#[test]
fn a_private_field() {
    let made = priv_field("_f3".to_owned(), plain("u8"));
    assert_eq!(made.ident.as_deref(), Some("_f3"));
    assert!(matches!(made.vis, Visibility::Inherited));
    assert!(made.attrs.is_empty());
    assert_eq!(made.ty.text, "u8");
}

#[test]
fn type_parameters_are_added_in_front() {
    let mut generics = Generics {
        lifetimes: vec![],
        ty_params: vec![TyParam {
            attrs: String::new(),
            ident: "T".to_owned(),
            bounds: "Eq".to_owned(),
            default: None,
        }],
        predicates: vec!["T: Send".to_owned()],
    };
    add_ty_params(
        &mut generics,
        vec![plain_ty_param("_0".to_owned()), plain_ty_param("_1".to_owned())],
    );
    let names: Vec<&str> = generics.ty_params.iter().map(|p| p.ident.as_str()).collect();
    assert_eq!(names, vec!["_0", "_1", "T"]);
    assert_eq!(generics.ty_params[2].bounds, "Eq");
    assert_eq!(generics.predicates, vec!["T: Send"]);
    add_ty_params(&mut generics, vec![]);
    assert_eq!(generics.ty_params.len(), 3);
}

#[test]
fn a_bound_by_a_trait() {
    let bound = ty_param_bound(vec!["Clone".to_owned()], Globalization::Local);
    assert!(!bound.global);
    assert_eq!(bound.text(), "Clone");
    let bound = ty_param_bound(
        vec!["std".to_owned(), "fmt".to_owned(), "Debug".to_owned()],
        Globalization::Global,
    );
    assert!(bound.global);
    assert_eq!(bound.segments, vec!["std", "fmt", "Debug"]);
    assert_eq!(bound.text(), "::std::fmt::Debug");
}

#[test]
fn debug_display_hands_its_argument_back() {
    assert_eq!(debug_display("text"), "text");
    assert_eq!(debug_display(7), 7);
}

#[test]
fn the_schema_of_a_record() {
    let decl = record(vec![], abc());
    let schema = Schema::derive(&decl).unwrap();
    assert_eq!(*schema.record, "Record");
    assert_eq!(schema.builder, "Builder");
    assert_eq!(schema.constructor, "new");
    assert_eq!(schema.finalizer, "build");
    assert_eq!(schema.module, "_builder");
    assert_eq!(schema.validator, "_builder::id");
    assert_eq!(schema.error, None);
    assert!(!schema.copy);
    assert!(!schema.inspect);
    assert_eq!(schema.required_count(), 2);
    assert_eq!(schema.optional_count(), 1);
    assert_eq!(schema.required, vec![0, 2]);
    assert_eq!(schema.optional, vec![1]);
    let fields: Vec<(&str, &str, bool, usize, &str)> = schema
        .fields
        .iter()
        .map(|f| (f.name.as_str(), f.setter.as_str(), f.required, f.slot, f.ty.text.as_str()))
        .collect();
    assert_eq!(
        fields,
        vec![
            ("a", "a", true, 0, "u32"),
            ("c", "c", false, 0, "Option<String>"),
            ("b", "b", true, 1, "i32"),
        ]
    );
}

#[test]
fn the_module_is_named_after_the_builder_in_lower_case() {
    let decl = record(
        vec![Directive::List("builder_names".to_owned(), vec![setting("builder", "MyBuilder")])],
        abc(),
    );
    let schema = Schema::derive(&decl).unwrap();
    assert_eq!(schema.builder, "MyBuilder");
    assert_eq!(schema.module, "_mybuilder");
    assert_eq!(schema.validator, "_mybuilder::id");
}

#[test]
fn capabilities_are_there_when_asked_for() {
    let decl = record(
        vec![Directive::List(
            "builder_derive".to_owned(),
            vec![DirectiveArg::Word("Debug".to_owned())],
        )],
        abc(),
    );
    let schema = Schema::derive(&decl).unwrap();
    assert!(!schema.copy);
    assert!(schema.inspect);
    let decl = record(
        vec![
            Directive::List("builder_derive".to_owned(), vec![]),
            Directive::List(
                "builder_derive".to_owned(),
                vec![DirectiveArg::Word("Clone".to_owned())],
            ),
        ],
        abc(),
    );
    let schema = Schema::derive(&decl).unwrap();
    assert!(schema.copy);
    assert!(!schema.inspect);
}

#[test]
fn prefixes_of_the_record_and_of_a_field() {
    let decl = record(
        vec![prefix("set_")],
        vec![
            field("firsts", plain("Vec<A>"), vec![]),
            field("seconds", plain("Vec<B>"), vec![prefix("with_")]),
            field("third", option_of(plain("C")), vec![prefix("")]),
        ],
    );
    let schema = Schema::derive(&decl).unwrap();
    let setters: Vec<&str> = schema.fields.iter().map(|f| f.setter.as_str()).collect();
    assert_eq!(setters, vec!["set_firsts", "with_seconds", "third"]);
    assert_eq!(schema.setter("set_firsts"), Some(Target::Required(0)));
    assert_eq!(schema.setter("with_seconds"), Some(Target::Required(1)));
    assert_eq!(schema.setter("third"), Some(Target::Optional(0)));
    assert_eq!(schema.setter("firsts"), None);
    assert_eq!(schema.setter("set_seconds"), None);
    assert_eq!(schema.field("firsts"), Some(Target::Required(0)));
    assert_eq!(schema.field("seconds"), Some(Target::Required(1)));
    assert_eq!(schema.field("third"), Some(Target::Optional(0)));
    assert_eq!(schema.field("set_firsts"), None);
}

#[test]
fn a_field_without_a_name_is_called_by_its_slot() {
    let decl = record(
        vec![prefix("set_")],
        vec![
            unnamed(plain("u8")),
            unnamed(option_of(plain("u8"))),
            unnamed(plain("u16")),
            unnamed(option_of(plain("u16"))),
        ],
    );
    let schema = Schema::derive(&decl).unwrap();
    let names: Vec<(&str, &str)> =
        schema.fields.iter().map(|f| (f.name.as_str(), f.setter.as_str())).collect();
    assert_eq!(names, vec![("0", "set_0"), ("0", "set_0"), ("1", "set_1"), ("1", "set_1")]);
    assert_eq!(schema.setter("set_1"), Some(Target::Required(1)));
    assert_eq!(schema.setter("set_0"), Some(Target::Required(0)));
}

#[test]
fn a_record_without_fields() {
    let decl = record(vec![], vec![]);
    let schema = Schema::derive(&decl).unwrap();
    assert_eq!(schema.required_count(), 0);
    assert_eq!(schema.optional_count(), 0);
    assert!(schema.fields.is_empty());
}

#[test]
fn renaming_changes_the_names_only() {
    let plain_decl = record(vec![], abc());
    let renamed_decl = record(
        vec![
            Directive::List(
                "builder_names".to_owned(),
                vec![
                    setting("builder", "Maker"),
                    setting("new", "create"),
                    setting("build", "finish"),
                ],
            ),
            prefix("set_"),
        ],
        vec![
            field("a", plain("u32"), vec![prefix("with_")]),
            field("c", option_of(plain("String")), vec![]),
            field("b", plain("i32"), vec![]),
        ],
    );
    let first = Schema::derive(&plain_decl).unwrap();
    let second = Schema::derive(&renamed_decl).unwrap();
    assert_eq!(second.builder, "Maker");
    assert_eq!(second.constructor, "create");
    assert_eq!(second.finalizer, "finish");
    assert_eq!(first.required, second.required);
    assert_eq!(first.optional, second.optional);
    assert_eq!((first.copy, first.inspect), (second.copy, second.inspect));
    assert_eq!(first.error.is_some(), second.error.is_some());
    for (one, other) in first.fields.iter().zip(second.fields.iter()) {
        assert_eq!((one.required, one.slot), (other.required, other.slot));
        assert_eq!(one.name, other.name);
    }
    assert_eq!(first.setter("a"), second.setter("with_a"));
    assert_eq!(first.setter("b"), second.setter("set_b"));
    assert_eq!(first.setter("c"), second.setter("set_c"));
}

#[test]
fn only_a_record_has_a_schema() {
    let mut decl = record(vec![], vec![]);
    decl.body = Body::Other;
    assert_eq!(error_of(&decl), GenError::NotARecord);
    assert_eq!(bob::create_builder(&decl), Err(GenError::NotARecord));
}

#[test]
fn the_directives_of_the_record_are_judged() {
    let twice = |name: &str| {
        vec![
            Directive::List(name.to_owned(), vec![setting("validator", "check")]),
            Directive::List(name.to_owned(), vec![setting("validator", "check")]),
        ]
    };
    assert_eq!(error_of(&record(twice("builder_names"), abc())), GenError::DuplicateNames);
    assert_eq!(error_of(&record(twice("builder_validate"), abc())), GenError::DuplicateValidator);
    assert_eq!(
        error_of(&record(vec![prefix("a"), prefix("b")], abc())),
        GenError::DuplicatePrefix
    );
    assert_eq!(
        error_of(&record(
            vec![Directive::List(
                "builder_names".to_owned(),
                vec![setting("new", "a"), setting("new", "b")]
            )],
            abc()
        )),
        GenError::ConflictingNames
    );
    assert_eq!(
        error_of(&record(
            vec![Directive::List(
                "builder_validate".to_owned(),
                vec![setting("validator", "v\u{e9}rifie")]
            )],
            abc()
        )),
        GenError::MalformedPath
    );
    assert_eq!(
        error_of(&record(
            vec![Directive::List("builder_validate".to_owned(), vec![])],
            abc()
        )),
        GenError::MissingValidator
    );
    assert_eq!(
        error_of(&record(
            vec![Directive::List(
                "builder_validate".to_owned(),
                vec![setting("validator", "a b")]
            )],
            abc()
        )),
        GenError::MalformedPath
    );
}

#[test]
fn the_fields_are_judged() {
    let bare = field("c", plain("Option"), vec![]);
    let decl = record(vec![], vec![field("a", plain("u32"), vec![]), bare]);
    assert_eq!(error_of(&decl), GenError::MissingInnerType);
    assert_eq!(bob::create_builder(&decl), Err(GenError::MissingInnerType));
    let decl = record(vec![], vec![field("a", plain("u32"), vec![prefix("x"), prefix("y")])]);
    assert_eq!(error_of(&decl), GenError::DuplicatePrefix);
}

#[test]
fn errors_have_an_order() {
    let names_twice = vec![
        Directive::List("builder_names".to_owned(), vec![]),
        Directive::List("builder_names".to_owned(), vec![]),
        prefix("a"),
        prefix("b"),
    ];
    assert_eq!(error_of(&record(names_twice, abc())), GenError::DuplicateNames);
    let prefix_twice = vec![
        prefix("a"),
        prefix("b"),
        Directive::List("builder_validate".to_owned(), vec![]),
    ];
    assert_eq!(error_of(&record(prefix_twice, abc())), GenError::DuplicatePrefix);
    let decl = record(
        vec![],
        vec![
            field("a", plain("u32"), vec![prefix("x"), prefix("y")]),
            field("c", plain("Option"), vec![]),
        ],
    );
    assert_eq!(error_of(&decl), GenError::MissingInnerType);
    let decl = record(
        vec![Directive::List("builder_validate".to_owned(), vec![])],
        vec![field("c", plain("Option"), vec![])],
    );
    assert_eq!(error_of(&decl), GenError::MissingValidator);
}
