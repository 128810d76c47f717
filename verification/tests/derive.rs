use bob::decl::{Body, Declaration, Field, Generics, TyParam, Ty, Visibility};
use bob::directive::{Directive, DirectiveArg, Literal};
use bob::nullable::NullableBuilder;
use bob::schema::{Schema, Target};
use bob::slots::Record;

#[derive(Clone, Debug, PartialEq)]
enum Value {
    U32(u32),
    I32(i32),
    Str(&'static str),
}

#[derive(Debug)]
pub enum BuildError {
    CatastrophicFailure,
    CoreIntegrityException,
}

fn plain(text: &str) -> Ty {
    Ty { text: text.to_owned(), head: Some(text.to_owned()), inner: None }
}

fn option_of(inner: Ty) -> Ty {
    Ty {
        text: format!("Option<{}>", inner.text),
        head: Some("Option".to_owned()),
        inner: Some(Box::new(inner)),
    }
}

fn setting(name: &str, value: &str) -> DirectiveArg {
    DirectiveArg::NameValue(
        name.to_owned(),
        Literal::Str { value: value.to_owned(), cooked: true },
    )
}

fn field(name: &str, ty: Ty, attrs: Vec<Directive>) -> Field {
    Field { ident: Some(name.to_owned()), vis: Visibility::Inherited, attrs, ty }
}

fn no_generics() -> Generics {
    Generics { lifetimes: vec![], ty_params: vec![], predicates: vec![] }
}

fn one_param(name: &str, bounds: &str) -> Generics {
    Generics {
        lifetimes: vec![],
        ty_params: vec![TyParam {
            attrs: String::new(),
            ident: name.to_owned(),
            bounds: bounds.to_owned(),
            default: None,
        }],
        predicates: vec![],
    }
}

fn first_struct() -> Declaration {
    Declaration {
        ident: "Struct".to_owned(),
        vis: Visibility::Public,
        attrs: vec![
            Directive::List("derive".to_owned(), vec![
                DirectiveArg::Word("Builder".to_owned()),
                DirectiveArg::Word("Debug".to_owned()),
            ]),
            Directive::List("builder_names".to_owned(), vec![setting("builder", "Builder")]),
            Directive::List("builder_derive".to_owned(), vec![
                DirectiveArg::Word("Clone".to_owned()),
                DirectiveArg::Word("Debug".to_owned()),
            ]),
            Directive::List("builder_validate".to_owned(), vec![
                setting("validator", "Struct::validate"),
                setting("error", "BuildError"),
            ]),
        ],
        generics: no_generics(),
        body: Body::Record(vec![
            field("a", plain("u32"), vec![]),
            field("b", plain("i32"), vec![]),
        ]),
    }
}

fn second_struct() -> Declaration {
    Declaration {
        ident: "Struct2".to_owned(),
        vis: Visibility::Inherited,
        attrs: vec![
            Directive::List("builder_names".to_owned(), vec![setting("builder", "Builder2")]),
            Directive::NameValue(
                "builder_prefix".to_owned(),
                Literal::Str { value: "set_".to_owned(), cooked: true },
            ),
            Directive::List("builder_validate".to_owned(), vec![setting("validator", "validate")]),
        ],
        generics: one_param("T", "Eq"),
        body: Body::Record(vec![Field {
            ident: Some("a".to_owned()),
            vis: Visibility::Public,
            attrs: vec![],
            ty: plain("T"),
        }]),
    }
}

fn third_struct() -> Declaration {
    Declaration {
        ident: "Struct3".to_owned(),
        vis: Visibility::Public,
        attrs: vec![
            Directive::List("builder_names".to_owned(), vec![
                setting("builder", "Builder3"),
                setting("new", "create"),
                setting("build", "finish"),
            ]),
            Directive::List("builder_docs".to_owned(), vec![
                setting("builder", "This is a builder."),
                setting("new", "This is a constructor."),
                setting("build", "This is a build method."),
            ]),
        ],
        generics: one_param("T", "Eq"),
        body: Body::Record(vec![
            Field {
                ident: Some("a".to_owned()),
                vis: Visibility::Public,
                attrs: vec![],
                ty: option_of(plain("T")),
            },
            field("b", option_of(plain("u32")), vec![]),
            field(
                "c",
                plain("i32"),
                vec![Directive::NameValue(
                    "builder_prefix".to_owned(),
                    Literal::Str { value: "set_".to_owned(), cooked: true },
                )],
            ),
        ]),
    }
}

fn start(schema: &Schema, constructor: &str) -> NullableBuilder<Value> {
    assert_eq!(schema.constructor, constructor);
    NullableBuilder::new(schema.required_count(), schema.optional_count())
}

fn call(
    schema: &Schema,
    builder: NullableBuilder<Value>,
    setter: &str,
    value: Value,
) -> NullableBuilder<Value> {
    match schema.setter(setter) {
        Some(Target::Required(slot)) => {
            assert!(builder.can_set(slot));
            builder.set_required(slot, value)
        }
        Some(Target::Optional(slot)) => {
            assert!(slot < schema.optional_count());
            builder.set_optional(slot, value)
        }
        None => panic!("no setter of this name"),
    }
}

fn finish(schema: &Schema, builder: NullableBuilder<Value>, finalizer: &str) -> Record<Value> {
    assert_eq!(schema.finalizer, finalizer);
    assert!(builder.is_complete());
    builder.build()
}

fn get(schema: &Schema, record: &Record<Value>, name: &str) -> Option<Value> {
    match schema.field(name) {
        Some(Target::Required(slot)) => Some(record.required[slot].clone()),
        Some(Target::Optional(slot)) => record.optional[slot].clone(),
        None => panic!("no field of this name"),
    }
}

fn validate(record: Record<Value>) -> Result<Record<Value>, BuildError> {
    Ok(record)
}

#[test]
fn build() {
    let decl = first_struct();
    let schema = Schema::derive(&decl).unwrap();
    assert_eq!(schema.builder, "Builder");
    assert!(schema.copy);
    assert_eq!(schema.validator, "Struct :: validate");
    assert_eq!(schema.error.as_deref(), Some("BuildError"));
    let builder = call(&schema, start(&schema, "new"), "a", Value::U32(777));
    let builder2 = builder.duplicate();
    let builder = call(&schema, builder, "b", Value::I32(-666));
    assert_eq!(schema.finalizer, "build");
    assert!(builder.is_complete());
    let built = builder.build_with(validate).unwrap();
    assert_eq!(Some(Value::U32(777)), get(&schema, &built, "a"));
    assert_eq!(Some(Value::I32(-666)), get(&schema, &built, "b"));
    let builder2 = call(&schema, builder2, "b", Value::I32(123));
    assert!(builder2.is_complete());
    let built = builder2.build_with(validate).unwrap();
    assert_eq!(Some(Value::U32(777)), get(&schema, &built, "a"));
    assert_eq!(Some(Value::I32(123)), get(&schema, &built, "b"));

    let decl = second_struct();
    let schema = Schema::derive(&decl).unwrap();
    assert_eq!(schema.builder, "Builder2");
    assert_eq!(schema.validator, "validate");
    assert_eq!(schema.error, None);
    let builder = call(&schema, start(&schema, "new"), "set_a", Value::Str("Hello"));
    assert!(builder.is_complete());
    let built = builder.build_with(|record| record);
    assert_eq!(schema.finalizer, "build");
    assert_eq!(Some(Value::Str("Hello")), get(&schema, &built, "a"));

    let decl = third_struct();
    let schema = Schema::derive(&decl).unwrap();
    assert_eq!(schema.builder, "Builder3");
    let builder = start(&schema, "create");
    let builder = call(&schema, builder, "a", Value::Str("World"));
    let builder = call(&schema, builder, "set_c", Value::I32(-42));
    let built = finish(&schema, builder, "finish");
    assert_eq!(Some(Value::Str("World")), get(&schema, &built, "a"));
    assert_eq!(None, get(&schema, &built, "b"));
    assert_eq!(Some(Value::I32(-42)), get(&schema, &built, "c"));
}

const FIRST: &str = "#[doc(hidden)] #[allow(unused)] pub mod _builder { pub struct O; pub struct I; pub fn id<T>(t: T) -> T { t } } \
pub struct Builder<_0, _1> { _marker: ::std::marker::PhantomData<(_0, _1)>, _f0: Option<u32>, _f1: Option<i32>, } \
impl Builder<_builder::O, _builder::O> { pub fn new() -> Builder<_builder::O, _builder::O> { Builder { _marker: ::std::marker::PhantomData, _f0: None, _f1: None, } } } \
impl<_0, _1> Clone for Builder<_0, _1> { fn clone(&self) -> Self { Builder { _marker: ::std::marker::PhantomData, _f0: self._f0.clone(), _f1: self._f1.clone(), } } } \
impl<_0, _1> ::std::fmt::Debug for Builder<_0, _1> { fn fmt(&self, fmt: &mut ::std::fmt::Formatter) -> Result<(), ::std::fmt::Error> { fmt.debug_struct(\"Builder\").field(\"_f0\", &self._f0).field(\"_f1\", &self._f1).finish() } } \
impl Builder<_builder::I, _builder::I> { pub fn build(self) -> Result<Struct, BuildError> { Struct :: validate(Struct { a: self._f0.expect(\"Type parameters should ensure that there is always value.\"), b: self._f1.expect(\"Type parameters should ensure that there is always value.\"), }) } } \
impl<_1> Builder<_builder::O, _1> { pub fn a(self, a: u32) -> Builder<_builder::I, _1> { Builder { _marker: ::std::marker::PhantomData, _f0: Some(a), _f1: self._f1, } } } \
impl<_0> Builder<_0, _builder::O> { pub fn b(self, b: i32) -> Builder<_0, _builder::I> { Builder { _marker: ::std::marker::PhantomData, _f1: Some(b), _f0: self._f0, } } } ";

const SECOND: &str = "#[doc(hidden)] #[allow(unused)] mod _builder2 { pub struct O; pub struct I; pub fn id<T>(t: T) -> T { t } } \
struct Builder2<_0, T: Eq> { _marker: ::std::marker::PhantomData<(_0)>, _f0: Option<T>, } \
impl<T: Eq> Builder2<_builder2::O, T> { fn new() -> Builder2<_builder2::O, T> { Builder2 { _marker: ::std::marker::PhantomData, _f0: None, } } } \
impl<T: Eq> Builder2<_builder2::I, T> { fn build(self) -> Struct2<T> { validate(Struct2 { a: self._f0.expect(\"Type parameters should ensure that there is always value.\"), }) } } \
impl<T: Eq> Builder2<_builder2::O, T> { fn set_a(self, a: T) -> Builder2<_builder2::I, T> { Builder2 { _marker: ::std::marker::PhantomData, _f0: Some(a), } } } ";

const THIRD: &str = "#[doc(hidden)] #[allow(unused)] pub mod _builder3 { pub struct O; pub struct I; pub fn id<T>(t: T) -> T { t } } \
pub struct Builder3<_0, T: Eq> { _marker: ::std::marker::PhantomData<(_0)>, _f2: Option<i32>, _f0: Option<T>, _f1: Option<u32>, } \
impl<T: Eq> Builder3<_builder3::O, T> { pub fn create() -> Builder3<_builder3::O, T> { Builder3 { _marker: ::std::marker::PhantomData, _f2: None, _f0: None, _f1: None, } } } \
impl<T: Eq> Builder3<_builder3::I, T> { pub fn finish(self) -> Struct3<T> { _builder3::id(Struct3 { c: self._f2.expect(\"Type parameters should ensure that there is always value.\"), a: self._f0, b: self._f1, }) } } \
impl<_0, T: Eq> Builder3<_0, T> { pub fn a(mut self, a: T) -> Builder3<_0, T> { self._f0 = Some(a); self } } \
impl<_0, T: Eq> Builder3<_0, T> { pub fn b(mut self, b: u32) -> Builder3<_0, T> { self._f1 = Some(b); self } } \
impl<T: Eq> Builder3<_builder3::O, T> { pub fn set_c(self, c: i32) -> Builder3<_builder3::I, T> { Builder3 { _marker: ::std::marker::PhantomData, _f2: Some(c), _f0: self._f0, _f1: self._f1, } } } ";

#[test]
fn the_builder_of_the_first_record_is_written_out() {
    assert_eq!(bob::create_builder(&first_struct()).unwrap(), FIRST);
}

#[test]
fn the_builder_of_the_second_record_is_written_out() {
    assert_eq!(bob::create_builder(&second_struct()).unwrap(), SECOND);
}

#[test]
fn the_builder_of_the_third_record_is_written_out() {
    assert_eq!(bob::create_builder(&third_struct()).unwrap(), THIRD);
}
