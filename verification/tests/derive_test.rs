//! Tests of the capability generator and of the pass that settles the roles
//! of a whole definition.

use suzunari_error::attribute::suzunari_location_impl;
use suzunari_error::derive::{
    boxed_stack_error_impl, generate_enum_impl, generate_struct_impl, stack_error_impl,
    BoxedConversion, StackErrorImpl, UnitAccessors,
};
use suzunari_error::diagnostic::{DefinitionError, DiagnosticKind};
use suzunari_error::helper::location_field_impl;
use suzunari_error::StackError;
use suzunari_error::schema::{
    Annotation, FieldDescriptor, Fields, Generics, ItemBody, PathArguments, PathSegment,
    ResolvedRoles, SchemaItem, TypeDescriptor, TypeShape, VariantDescriptor,
};

const CRATE: &str = "suzunari_error";

fn path_type(text: &str, last: &str, span: u64) -> TypeDescriptor {
    TypeDescriptor {
        text: text.to_string(),
        shape: TypeShape::Path(Some(PathSegment {
            ident: last.to_string(),
            ident_span: span,
            arguments: PathArguments::Absent,
            span,
        })),
        span,
    }
}

fn snafu(args: &str, span: u64) -> Annotation {
    Annotation::parse(Some("snafu".to_string()), Some(args), format!("snafu({args})"), span, &vec![])
}

fn field(name: &str, ty: TypeDescriptor, attrs: Vec<Annotation>, span: u64) -> FieldDescriptor {
    FieldDescriptor { name: name.to_string(), ty, attrs, location_role: false, span }
}

fn string_field(name: &str, span: u64) -> FieldDescriptor {
    field(name, path_type("String", "String", span), vec![], span)
}

fn location_field(name: &str, span: u64) -> FieldDescriptor {
    field(name, path_type("Location", "Location", span), vec![], span)
}

fn no_generics() -> Generics {
    Generics { impl_generics: String::new(), ty_generics: String::new(), where_predicates: None }
}

fn record(name: &str, fields: Fields) -> SchemaItem {
    SchemaItem {
        name: name.to_string(),
        name_span: 1,
        attrs: vec![],
        generics: no_generics(),
        body: ItemBody::Struct { fields, fields_span: 2 },
        span: 3,
    }
}

fn variant(name: &str, fields: Fields, span: u64) -> VariantDescriptor {
    VariantDescriptor { name: name.to_string(), attrs: vec![], fields, span }
}

fn tagged(name: &str, variants: Vec<VariantDescriptor>) -> SchemaItem {
    SchemaItem {
        name: name.to_string(),
        name_span: 1,
        attrs: vec![],
        generics: no_generics(),
        body: ItemBody::Enum(variants),
        span: 3,
    }
}

fn kinds(e: &DefinitionError) -> Vec<(DiagnosticKind, u64)> {
    e.diagnostics.iter().map(|d| (d.kind, d.span)).collect()
}

fn unit(case: Option<&str>, location: &str, label: &str, source: Option<&str>) -> UnitAccessors {
    UnitAccessors {
        case: case.map(|c| c.to_string()),
        location_field: location.to_string(),
        type_label: label.to_string(),
        source_field: source.map(|field| field.to_string()),
    }
}

// --- records ---

#[test]
fn record_with_location_gets_its_accessors() {
    let item = record(
        "TestErrorWithLocation",
        Fields::Named(vec![string_field("message", 10), location_field("location", 11)]),
    );
    let plan = stack_error_impl(&item, CRATE, false).unwrap();
    assert_eq!(
        plan,
        StackErrorImpl {
            target: "TestErrorWithLocation".to_string(),
            crate_path: CRATE.to_string(),
            generics: no_generics(),
            units: vec![unit(None, "location", "TestErrorWithLocation", None)],
            has_stack_source: false,
            boxed: None,
        }
    );
}

#[test]
fn record_with_source_gets_a_cause_accessor() {
    let fields = vec![
        field("source", path_type("BoxedStackError", "BoxedStackError", 10), vec![], 10),
        location_field("location", 11),
    ];
    let plan =
        generate_struct_impl(&"ErrorAggregate".to_string(), &fields, 2, CRATE, &no_generics(), true)
            .unwrap();
    assert!(plan.has_stack_source);
    assert_eq!(
        plan.units,
        vec![unit(None, "location", "ErrorAggregate", Some("source"))]
    );
    assert_eq!(plan.boxed, Some(BoxedConversion { predicates: vec![] }));
}

/// The declared type of a cause field does not decide anything in the plan.
#[test]
fn cause_field_is_planned_whatever_its_type() {
    for (text, last) in [("BoxedStackError", "BoxedStackError"), ("Simple", "Simple"), ("std::io::Error", "Error")] {
        let fields = vec![field("source", path_type(text, last, 10), vec![], 10), location_field("location", 11)];
        let plan =
            generate_struct_impl(&"Wrapper".to_string(), &fields, 2, CRATE, &no_generics(), false)
                .unwrap();
        assert_eq!(plan.units, vec![unit(None, "location", "Wrapper", Some("source"))]);
        assert!(plan.has_stack_source);
        let text = suzunari_error::derive::render(&plan);
        assert!(text.contains(
            "Self { source: cause, .. } => suzunari_error::StackSourceResolver(cause).resolve(), "
        ));
        assert!(text.contains(
            "Self { source: cause, .. } => suzunari_error::PlainSourceResolver(suzunari_error::PlainSourceFallback(cause)).resolve(), "
        ));
    }
}

#[test]
fn location_field_need_not_be_named_location() {
    let fields = vec![location_field("origin", 10), string_field("source", 11)];
    let plan =
        generate_struct_impl(&"E".to_string(), &fields, 2, CRATE, &no_generics(), false).unwrap();
    assert_eq!(plan.units, vec![unit(None, "origin", "E", Some("source"))]);
}

/// derive_struct_no_location
#[test]
fn record_without_location_is_rejected() {
    let item = record("MyError", Fields::Named(vec![string_field("message", 10)]));
    let e = stack_error_impl(&item, CRATE, true).unwrap_err();
    assert_eq!(kinds(&e), vec![(DiagnosticKind::NoLocationField, 2)]);
}

/// derive_struct_wrong_location_type
#[test]
fn record_with_wrongly_typed_location_is_rejected() {
    let item = record("MyError", Fields::Named(vec![string_field("location", 10)]));
    let e = stack_error_impl(&item, CRATE, true).unwrap_err();
    assert_eq!(kinds(&e), vec![(DiagnosticKind::WrongLocationType, 10)]);
}

/// derive_tuple_struct
#[test]
fn tuple_record_is_rejected() {
    let e = stack_error_impl(&record("TupleError", Fields::Unnamed), CRATE, true).unwrap_err();
    assert_eq!(kinds(&e), vec![(DiagnosticKind::DeriveOnUnnamedStruct, 2)]);
    assert_eq!(
        e.diagnostics[0].message(),
        "StackError can only be derived for structs with named fields"
    );
    let e = stack_error_impl(&record("UnitError", Fields::Unit), CRATE, true).unwrap_err();
    assert_eq!(kinds(&e), vec![(DiagnosticKind::DeriveOnUnnamedStruct, 2)]);
}

#[test]
fn union_is_rejected() {
    let item = SchemaItem {
        name: "U".to_string(),
        name_span: 41,
        attrs: vec![],
        generics: no_generics(),
        body: ItemBody::Union,
        span: 42,
    };
    let e = stack_error_impl(&item, CRATE, true).unwrap_err();
    assert_eq!(kinds(&e), vec![(DiagnosticKind::DeriveOnUnion, 41)]);
    assert_eq!(e.diagnostics[0].message(), "StackError cannot be derived for unions");
    let e = suzunari_location_impl(&item, CRATE).unwrap_err();
    assert_eq!(kinds(&e), vec![(DiagnosticKind::LocationOnUnion, 42)]);
    assert_eq!(e.diagnostics[0].message(), "suzunari_location cannot be used on unions");
}

/// stack_bare, stack_unknown_arg
#[test]
fn record_with_a_wrong_stack_annotation_is_rejected() {
    let bare = Annotation::parse(Some("stack".to_string()), None, "stack".to_string(), 21, &vec![]);
    let item = record(
        "MyError",
        Fields::Named(vec![field("location", path_type("Location", "Location", 10), vec![bare], 10)]),
    );
    let e = stack_error_impl(&item, CRATE, true).unwrap_err();
    assert_eq!(kinds(&e), vec![(DiagnosticKind::StackWithoutArguments, 21)]);
    let unknown = Annotation::parse(
        Some("stack".to_string()),
        Some("loc"),
        "stack(loc)".to_string(),
        22,
        &vec![31],
    );
    let item = record(
        "MyError",
        Fields::Named(vec![field("location", path_type("Location", "Location", 10), vec![unknown], 10)]),
    );
    let e = stack_error_impl(&item, CRATE, true).unwrap_err();
    assert_eq!(kinds(&e), vec![(DiagnosticKind::StackUnknownArgument, 31)]);
    assert_eq!(e.diagnostics[0].detail, "loc");
    let e = suzunari_location_impl(&item, CRATE).unwrap_err();
    assert_eq!(kinds(&e), vec![(DiagnosticKind::StackUnknownArgument, 31)]);
    // In a case of a tagged-variant type, too.
    let bare = Annotation::parse(Some("stack".to_string()), None, "stack".to_string(), 23, &vec![]);
    let item = tagged(
        "E",
        vec![
            variant("A", Fields::Named(vec![location_field("location", 1)]), 2),
            variant(
                "B",
                Fields::Named(vec![field("location", path_type("Location", "Location", 3), vec![bare], 3)]),
                4,
            ),
        ],
    );
    let e = stack_error_impl(&item, CRATE, true).unwrap_err();
    assert_eq!(kinds(&e), vec![(DiagnosticKind::StackWithoutArguments, 23)]);
}

// --- tagged-variant types ---

fn test_error_enum() -> Vec<VariantDescriptor> {
    vec![
        variant(
            "Variant3",
            Fields::Named(vec![string_field("message", 10), location_field("location", 11)]),
            12,
        ),
        variant(
            "Variant4",
            Fields::Named(vec![
                string_field("context", 20),
                field("error", path_type("std::io::Error", "Error", 21), vec![snafu("source", 22)], 23),
                location_field("at", 24),
            ]),
            25,
        ),
    ]
}

#[test]
fn cases_get_their_accessors() {
    let plan = generate_enum_impl(
        &"TestErrorEnumWithLocation".to_string(),
        &test_error_enum(),
        CRATE,
        &no_generics(),
        true,
    )
    .unwrap();
    assert_eq!(plan.target, "TestErrorEnumWithLocation");
    assert_eq!(
        plan.units,
        vec![
            unit(Some("Variant3"), "location", "TestErrorEnumWithLocation::Variant3", None),
            unit(
                Some("Variant4"),
                "at",
                "TestErrorEnumWithLocation::Variant4",
                Some("error")
            ),
        ]
    );
    assert!(plan.has_stack_source);
    assert_eq!(plan.boxed, Some(BoxedConversion { predicates: vec![] }));
}

#[test]
fn cases_without_cause_need_no_cause_accessor() {
    let variants = vec![
        variant("A", Fields::Named(vec![location_field("location", 1)]), 2),
        variant("B", Fields::Named(vec![location_field("location", 3)]), 4),
    ];
    let plan = generate_enum_impl(&"E".to_string(), &variants, CRATE, &no_generics(), false).unwrap();
    assert!(!plan.has_stack_source);
    assert_eq!(plan.units.len(), 2);
    assert_eq!(plan.boxed, None);
    let none = generate_enum_impl(&"Never".to_string(), &vec![], CRATE, &no_generics(), false).unwrap();
    assert!(none.units.is_empty());
    assert!(!none.has_stack_source);
}

#[test]
fn case_without_named_fields_is_rejected_first() {
    let variants = vec![
        variant("A", Fields::Named(vec![string_field("message", 1)]), 2),
        variant("B", Fields::Unit, 3),
        variant("C", Fields::Unnamed, 4),
    ];
    // The case A has no location field, but the shape of B is looked at first.
    let e = generate_enum_impl(&"E".to_string(), &variants, CRATE, &no_generics(), true).unwrap_err();
    assert_eq!(kinds(&e), vec![(DiagnosticKind::DeriveOnUnnamedVariant, 3)]);
    assert_eq!(
        e.diagnostics[0].message(),
        "StackError can only be derived for enums with named fields in all variants"
    );
}

/// derive_enum_no_location, derive_enum_wrong_location_type
#[test]
fn first_case_in_error_is_reported() {
    let variants = vec![
        variant("A", Fields::Named(vec![location_field("location", 1)]), 2),
        variant("B", Fields::Named(vec![string_field("message", 3)]), 4),
        variant("C", Fields::Named(vec![string_field("location", 5)]), 6),
    ];
    let e = stack_error_impl(&tagged("MyError", variants), CRATE, true).unwrap_err();
    assert_eq!(kinds(&e), vec![(DiagnosticKind::NoLocationField, 4)]);
    let variants = vec![variant("Variant1", Fields::Named(vec![string_field("location", 5)]), 6)];
    let e = stack_error_impl(&tagged("MyError", variants), CRATE, true).unwrap_err();
    assert_eq!(kinds(&e), vec![(DiagnosticKind::WrongLocationType, 5)]);
}

// --- the conversion into the type-erasure wrapper ---

#[test]
fn conversion_repeats_the_where_clause() {
    let generics = Generics {
        impl_generics: "<T: Clone>".to_string(),
        ty_generics: "<T>".to_string(),
        where_predicates: Some(vec!["T: Send".to_string(), "T: 'static".to_string()]),
    };
    assert_eq!(
        boxed_stack_error_impl(&generics, true),
        Some(BoxedConversion {
            predicates: vec!["T: Send".to_string(), "T: 'static".to_string()]
        })
    );
    assert_eq!(boxed_stack_error_impl(&generics, false), None);
    assert_eq!(
        boxed_stack_error_impl(&no_generics(), true),
        Some(BoxedConversion { predicates: vec![] })
    );
    let fields = vec![location_field("location", 1)];
    let plan = generate_struct_impl(&"G".to_string(), &fields, 2, "crate", &generics, true).unwrap();
    assert_eq!(plan.generics, generics);
    assert_eq!(plan.crate_path, "crate");
}

// --- settling the roles of a whole definition ---

/// The record `Simple {}` is given its location field.
#[test]
fn simple_gets_a_location_field() {
    let simple = record("Simple", Fields::Named(vec![]));
    let (settled, roles) = suzunari_location_impl(&simple, CRATE).unwrap();
    assert_eq!(roles, vec![ResolvedRoles { location_field: 0, source_field: None }]);
    assert_eq!(settled, record("Simple", Fields::Named(vec![location_field_impl(CRATE, 2)])));
    let plan = stack_error_impl(&settled, CRATE, true).unwrap();
    assert_eq!(plan.units, vec![unit(None, "location", "Simple", None)]);
    // Settling again changes nothing.
    let (again, roles_again) = suzunari_location_impl(&settled, CRATE).unwrap();
    assert_eq!(again, settled);
    assert_eq!(roles_again, roles);
}

#[test]
fn cases_are_settled_one_by_one() {
    let item = tagged(
        "ErrorEnum",
        vec![
            variant("Variant1Unit", Fields::Unit, 10),
            variant("Variant2NamedField", Fields::Named(vec![string_field("message", 20)]), 21),
            variant(
                "WithSource",
                Fields::Named(vec![string_field("source", 30), location_field("origin", 31)]),
                32,
            ),
        ],
    );
    let (settled, roles) = suzunari_location_impl(&item, CRATE).unwrap();
    assert_eq!(
        roles,
        vec![
            ResolvedRoles { location_field: 0, source_field: None },
            ResolvedRoles { location_field: 1, source_field: None },
            ResolvedRoles { location_field: 1, source_field: Some(0) },
        ]
    );
    let variants = match &settled.body {
        ItemBody::Enum(variants) => variants,
        other => panic!("no tagged-variant type: {other:?}"),
    };
    assert_eq!(variants[0].fields, Fields::Named(vec![location_field_impl(CRATE, 10)]));
    assert_eq!(
        variants[1].fields,
        Fields::Named(vec![string_field("message", 20), location_field_impl(CRATE, 21)])
    );
    let mut origin = location_field("origin", 31);
    origin.location_role = true;
    assert_eq!(variants[2].fields, Fields::Named(vec![string_field("source", 30), origin]));
    let plan = stack_error_impl(&settled, CRATE, false).unwrap();
    assert_eq!(plan.units.len(), 3);
    assert_eq!(plan.units[0].type_label, "ErrorEnum::Variant1Unit");
    assert_eq!(plan.units[2].location_field, "origin");
}

#[test]
fn shapes_without_named_fields_cannot_be_settled() {
    let e = suzunari_location_impl(&record("T", Fields::Unnamed), CRATE).unwrap_err();
    assert_eq!(kinds(&e), vec![(DiagnosticKind::LocationOnUnnamedStruct, 2)]);
    assert_eq!(
        e.diagnostics[0].message(),
        "suzunari_location can only be used on structs with named fields"
    );
    let e = suzunari_location_impl(&record("T", Fields::Unit), CRATE).unwrap_err();
    assert_eq!(kinds(&e), vec![(DiagnosticKind::LocationOnUnnamedStruct, 2)]);
    let item = tagged(
        "E",
        vec![
            variant("A", Fields::Unit, 10),
            variant("B", Fields::Unnamed, 11),
            variant("C", Fields::Named(vec![string_field("location", 12)]), 13),
        ],
    );
    let e = suzunari_location_impl(&item, CRATE).unwrap_err();
    assert_eq!(kinds(&e), vec![(DiagnosticKind::LocationOnUnnamedVariant, 11)]);
    assert_eq!(
        e.diagnostics[0].message(),
        "suzunari_location can only be used on enum variants with named fields"
    );
}

/// suzu_location_name_conflict, suzu_multiple_location_types
#[test]
fn conflicts_stop_the_settling() {
    let item = record("MyError", Fields::Named(vec![string_field("location", 10)]));
    let e = suzunari_location_impl(&item, CRATE).unwrap_err();
    assert_eq!(kinds(&e), vec![(DiagnosticKind::WrongLocationType, 10)]);
    let item = record(
        "MyError",
        Fields::Named(vec![location_field("origin", 10), location_field("other_loc", 11)]),
    );
    let e = suzunari_location_impl(&item, CRATE).unwrap_err();
    assert_eq!(kinds(&e), vec![(DiagnosticKind::AmbiguousLocationType, 11)]);
}

// --- the implementation as source text ---

#[test]
fn record_is_rendered() {
    let plan = StackErrorImpl {
        target: "Simple".to_string(),
        crate_path: "suzunari_error".to_string(),
        generics: no_generics(),
        units: vec![unit(None, "location", "Simple", None)],
        has_stack_source: false,
        boxed: None,
    };
    assert_eq!(
        suzunari_error::derive::render(&plan),
        "impl suzunari_error::StackError for Simple { \
fn location(&self) -> &suzunari_error::location::Location { match self { Self { location: at, .. } => ::core::borrow::Borrow::borrow(at), } } \
fn type_label(&self) -> &'static str { match self { Self { .. } => \"Simple\", } } \
fn message(&self) -> ::std::string::String { ::std::string::ToString::to_string(self) } \
fn stack_source(&self) -> ::core::option::Option<suzunari_error::BoxedStackError> { match self { Self { .. } => ::core::option::Option::None, } } \
fn plain_source(&self) -> ::core::option::Option<suzunari_error::PlainError> { match self { Self { .. } => ::core::option::Option::None, } } }"
    );
}

#[test]
fn rendered_implementation_is_source_text() {
    let generics = Generics {
        impl_generics: "<T: Clone>".to_string(),
        ty_generics: "<T>".to_string(),
        where_predicates: Some(vec!["T: Send".to_string(), "T: 'static".to_string()]),
    };
    let plan = StackErrorImpl {
        target: "Generic".to_string(),
        crate_path: "crate".to_string(),
        generics,
        units: vec![unit(None, "location", "Generic", Some("cause"))],
        has_stack_source: true,
        boxed: Some(BoxedConversion {
            predicates: vec!["T: Send".to_string(), "T: 'static".to_string()],
        }),
    };
    let text = suzunari_error::derive::render(&plan);
    let file = syn::parse_str::<syn::File>(&text).unwrap();
    assert_eq!(file.items.len(), 2);
    assert!(text.starts_with("impl<T: Clone> crate::StackError for Generic<T> where T: Send, T: 'static,  { "));
    assert!(text.ends_with(
        " impl<T: Clone> ::core::convert::From<Generic<T>> for crate::BoxedStackError where T: Send, T: 'static, Generic<T>: crate::StackError + Send + Sync + 'static { fn from(error: Generic<T>) -> Self { crate::BoxedStackError::new(error) } }"
    ));
}

#[test]
fn settled_definition_is_rendered_whole() {
    let item = record("Simple", Fields::Named(vec![]));
    let (settled, _) = suzunari_location_impl(&item, CRATE).unwrap();
    let plan = stack_error_impl(&settled, CRATE, true).unwrap();
    let text = suzunari_error::derive::render(&plan);
    let file = syn::parse_str::<syn::File>(&text).unwrap();
    assert_eq!(file.items.len(), 2);
}

// --- the implementation that is written for `Failure`, compiled ---

struct Inner {
    location: suzunari_error::Location,
}

impl suzunari_error::StackError for Inner {
    fn location(&self) -> &suzunari_error::Location {
        &self.location
    }

    fn type_label(&self) -> &'static str {
        "Inner"
    }

    fn message(&self) -> String {
        "inner".to_string()
    }

    fn stack_source(&self) -> Option<suzunari_error::BoxedStackError> {
        None
    }

    fn plain_source(&self) -> Option<suzunari_error::PlainError> {
        None
    }
}

enum Failure {
    Plain { location: suzunari_error::Location },
    Io { source: suzunari_error::PlainError, at: suzunari_error::Location },
    Nested { cause: Inner, location: suzunari_error::Location },
}

impl std::fmt::Display for Failure {
    fn fmt(&self, f: &mut std::fmt::Formatter<'_>) -> std::fmt::Result {
        f.write_str("it failed")
    }
}

const FAILURE_IMPL: &str = "impl suzunari_error::StackError for Failure { \
fn location(&self) -> &suzunari_error::location::Location { match self { \
Self::Plain { location: at, .. } => ::core::borrow::Borrow::borrow(at), \
Self::Io { at: at, .. } => ::core::borrow::Borrow::borrow(at), \
Self::Nested { location: at, .. } => ::core::borrow::Borrow::borrow(at), \
} } \
fn type_label(&self) -> &'static str { match self { \
Self::Plain { .. } => \"Failure::Plain\", \
Self::Io { .. } => \"Failure::Io\", \
Self::Nested { .. } => \"Failure::Nested\", \
} } \
fn message(&self) -> ::std::string::String { ::std::string::ToString::to_string(self) } \
fn stack_source(&self) -> ::core::option::Option<suzunari_error::BoxedStackError> { match self { \
Self::Plain { .. } => ::core::option::Option::None, \
Self::Io { source: cause, .. } => suzunari_error::StackSourceResolver(cause).resolve(), \
Self::Nested { cause: cause, .. } => suzunari_error::StackSourceResolver(cause).resolve(), \
} } \
fn plain_source(&self) -> ::core::option::Option<suzunari_error::PlainError> { match self { \
Self::Plain { .. } => ::core::option::Option::None, \
Self::Io { source: cause, .. } => suzunari_error::PlainSourceResolver(suzunari_error::PlainSourceFallback(cause)).resolve(), \
Self::Nested { cause: cause, .. } => suzunari_error::PlainSourceResolver(suzunari_error::PlainSourceFallback(cause)).resolve(), \
} } } \
impl ::core::convert::From<Failure> for suzunari_error::BoxedStackError where Failure: suzunari_error::StackError + Send + Sync + 'static { \
fn from(error: Failure) -> Self { suzunari_error::BoxedStackError::new(error) } }";

// The text of `FAILURE_IMPL`, as code.
impl suzunari_error::StackError for Failure {
    fn location(&self) -> &suzunari_error::location::Location {
        match self {
            Self::Plain { location: at, .. } => ::core::borrow::Borrow::borrow(at),
            Self::Io { at: at, .. } => ::core::borrow::Borrow::borrow(at),
            Self::Nested { location: at, .. } => ::core::borrow::Borrow::borrow(at),
        }
    }
    fn type_label(&self) -> &'static str {
        match self {
            Self::Plain { .. } => "Failure::Plain",
            Self::Io { .. } => "Failure::Io",
            Self::Nested { .. } => "Failure::Nested",
        }
    }
    fn message(&self) -> ::std::string::String {
        ::std::string::ToString::to_string(self)
    }
    fn stack_source(&self) -> ::core::option::Option<suzunari_error::BoxedStackError> {
        match self {
            Self::Plain { .. } => ::core::option::Option::None,
            Self::Io { source: cause, .. } => suzunari_error::StackSourceResolver(cause).resolve(),
            Self::Nested { cause: cause, .. } => {
                suzunari_error::StackSourceResolver(cause).resolve()
            }
        }
    }
    fn plain_source(&self) -> ::core::option::Option<suzunari_error::PlainError> {
        match self {
            Self::Plain { .. } => ::core::option::Option::None,
            Self::Io { source: cause, .. } => {
                suzunari_error::PlainSourceResolver(suzunari_error::PlainSourceFallback(cause)).resolve()
            }
            Self::Nested { cause: cause, .. } => {
                suzunari_error::PlainSourceResolver(suzunari_error::PlainSourceFallback(cause)).resolve()
            }
        }
    }
}
impl ::core::convert::From<Failure> for suzunari_error::BoxedStackError
where
    Failure: suzunari_error::StackError + Send + Sync + 'static,
{
    fn from(error: Failure) -> Self {
        suzunari_error::BoxedStackError::new(error)
    }
}

fn place(line: u32) -> suzunari_error::Location {
    suzunari_error::Location::current("tests/derive_test.rs", line, 1)
}

/// The definition of `Failure`, with the types that are compiled above.
fn failure_definition() -> SchemaItem {
    tagged(
        "Failure",
        vec![
            variant(
                "Plain",
                Fields::Named(vec![field(
                    "location",
                    path_type("suzunari_error::Location", "Location", 1),
                    vec![],
                    1,
                )]),
                2,
            ),
            variant(
                "Io",
                Fields::Named(vec![
                    field(
                        "source",
                        path_type("suzunari_error::PlainError", "PlainError", 3),
                        vec![],
                        3,
                    ),
                    field("at", path_type("suzunari_error::Location", "Location", 4), vec![], 4),
                ]),
                5,
            ),
            variant(
                "Nested",
                Fields::Named(vec![
                    field("cause", path_type("Inner", "Inner", 6), vec![snafu("source", 6)], 6),
                    field(
                        "location",
                        path_type("suzunari_error::Location", "Location", 7),
                        vec![],
                        7,
                    ),
                ]),
                8,
            ),
        ],
    )
}

#[test]
fn rendered_implementation_is_what_is_compiled_here() {
    let plan = stack_error_impl(&failure_definition(), CRATE, true).unwrap();
    assert_eq!(suzunari_error::derive::render(&plan), FAILURE_IMPL);
}

#[test]
fn compiled_implementation_reports_its_causes() {
    let plain = Failure::Plain { location: place(10) };
    assert_eq!(plain.type_label(), "Failure::Plain");
    assert_eq!(plain.message(), "it failed");
    assert_eq!(plain.location().line(), 10);
    assert_eq!(plain.depth(), 0);
    assert!(plain.stack_source().is_none());
    assert!(plain.plain_source().is_none());
    // A cause without the capability is a plain cause.
    let io = Failure::Io {
        source: suzunari_error::PlainError::new("disk".to_string()),
        at: place(20),
    };
    assert_eq!(io.location().line(), 20);
    assert!(io.stack_source().is_none());
    assert_eq!(io.plain_source().unwrap().message(), "disk");
    // A cause whose type has the capability is handed out with type and location.
    let nested = Failure::Nested { cause: Inner { location: place(30) }, location: place(31) };
    assert_eq!(nested.stack_source().unwrap().type_label(), "Inner");
    assert!(nested.plain_source().is_none());
    let boxed: suzunari_error::BoxedStackError = nested.into();
    assert_eq!(
        suzunari_error::stack_report::format_report(&boxed),
        "Error: Failure::Nested: it failed, at tests/derive_test.rs:31:1\nCaused by the following errors (recent errors listed first):\n  1| Inner: inner, at tests/derive_test.rs:30:1\n"
    );
}

// --- `Wrapper { message, source: Simple }`, made by wrapping a `Simple` failure ---

struct Simple {
    location: suzunari_error::Location,
}

impl std::fmt::Display for Simple {
    fn fmt(&self, f: &mut std::fmt::Formatter<'_>) -> std::fmt::Result {
        f.write_str("Simple")
    }
}

struct Wrapper {
    message: String,
    source: Simple,
    location: suzunari_error::Location,
}

impl std::fmt::Display for Wrapper {
    fn fmt(&self, f: &mut std::fmt::Formatter<'_>) -> std::fmt::Result {
        f.write_str(&self.message)
    }
}

const SIMPLE_IMPL: &str = "impl suzunari_error::StackError for Simple { \
fn location(&self) -> &suzunari_error::location::Location { match self { \
Self { location: at, .. } => ::core::borrow::Borrow::borrow(at), } } \
fn type_label(&self) -> &'static str { match self { Self { .. } => \"Simple\", } } \
fn message(&self) -> ::std::string::String { ::std::string::ToString::to_string(self) } \
fn stack_source(&self) -> ::core::option::Option<suzunari_error::BoxedStackError> { match self { \
Self { .. } => ::core::option::Option::None, } } \
fn plain_source(&self) -> ::core::option::Option<suzunari_error::PlainError> { match self { \
Self { .. } => ::core::option::Option::None, } } }";

const WRAPPER_IMPL: &str = "impl suzunari_error::StackError for Wrapper { \
fn location(&self) -> &suzunari_error::location::Location { match self { \
Self { location: at, .. } => ::core::borrow::Borrow::borrow(at), } } \
fn type_label(&self) -> &'static str { match self { Self { .. } => \"Wrapper\", } } \
fn message(&self) -> ::std::string::String { ::std::string::ToString::to_string(self) } \
fn stack_source(&self) -> ::core::option::Option<suzunari_error::BoxedStackError> { match self { \
Self { source: cause, .. } => suzunari_error::StackSourceResolver(cause).resolve(), } } \
fn plain_source(&self) -> ::core::option::Option<suzunari_error::PlainError> { match self { \
Self { source: cause, .. } => suzunari_error::PlainSourceResolver(suzunari_error::PlainSourceFallback(cause)).resolve(), } } }";

// The texts of `SIMPLE_IMPL` and `WRAPPER_IMPL`, as code.
impl suzunari_error::StackError for Simple {
    fn location(&self) -> &suzunari_error::location::Location {
        match self {
            Self { location: at, .. } => ::core::borrow::Borrow::borrow(at),
        }
    }
    fn type_label(&self) -> &'static str {
        match self {
            Self { .. } => "Simple",
        }
    }
    fn message(&self) -> ::std::string::String {
        ::std::string::ToString::to_string(self)
    }
    fn stack_source(&self) -> ::core::option::Option<suzunari_error::BoxedStackError> {
        match self {
            Self { .. } => ::core::option::Option::None,
        }
    }
    fn plain_source(&self) -> ::core::option::Option<suzunari_error::PlainError> {
        match self {
            Self { .. } => ::core::option::Option::None,
        }
    }
}
impl suzunari_error::StackError for Wrapper {
    fn location(&self) -> &suzunari_error::location::Location {
        match self {
            Self { location: at, .. } => ::core::borrow::Borrow::borrow(at),
        }
    }
    fn type_label(&self) -> &'static str {
        match self {
            Self { .. } => "Wrapper",
        }
    }
    fn message(&self) -> ::std::string::String {
        ::std::string::ToString::to_string(self)
    }
    fn stack_source(&self) -> ::core::option::Option<suzunari_error::BoxedStackError> {
        match self {
            Self { source: cause, .. } => suzunari_error::StackSourceResolver(cause).resolve(),
        }
    }
    fn plain_source(&self) -> ::core::option::Option<suzunari_error::PlainError> {
        match self {
            Self { source: cause, .. } => {
                suzunari_error::PlainSourceResolver(suzunari_error::PlainSourceFallback(cause)).resolve()
            }
        }
    }
}

#[test]
fn wrapper_and_simple_are_rendered_as_compiled_here() {
    let simple = record("Simple", Fields::Named(vec![]));
    let (simple, _) = suzunari_location_impl(&simple, CRATE).unwrap();
    let plan = stack_error_impl(&simple, CRATE, false).unwrap();
    assert_eq!(suzunari_error::derive::render(&plan), SIMPLE_IMPL);

    let wrapper = record(
        "Wrapper",
        Fields::Named(vec![
            string_field("message", 10),
            field("source", path_type("Simple", "Simple", 11), vec![], 11),
        ]),
    );
    let (wrapper, roles) = suzunari_location_impl(&wrapper, CRATE).unwrap();
    assert_eq!(roles, vec![ResolvedRoles { location_field: 2, source_field: Some(1) }]);
    let plan = stack_error_impl(&wrapper, CRATE, false).unwrap();
    assert_eq!(plan.units, vec![unit(None, "location", "Wrapper", Some("source"))]);
    assert!(plan.has_stack_source);
    assert_eq!(suzunari_error::derive::render(&plan), WRAPPER_IMPL);
}

/// The report of a `Wrapper` has the banner and exactly one frame, which
/// names `Simple` with its location.
#[test]
fn wrapper_shows_simple_with_type_and_location() {
    let wrapper = Wrapper {
        message: "while saving".to_string(),
        source: Simple { location: place(40) },
        location: place(41),
    };
    let cause = wrapper.stack_source().unwrap();
    assert_eq!(cause.type_label(), "Simple");
    assert_eq!(cause.message(), "Simple");
    assert_eq!(cause.location().line(), 40);
    assert!(wrapper.plain_source().is_none());
    assert_eq!(wrapper.depth(), 1);
    let text = suzunari_error::stack_report::format_report(&wrapper);
    assert_eq!(
        text,
        "Error: Wrapper: while saving, at tests/derive_test.rs:41:1\nCaused by the following errors (recent errors listed first):\n  1| Simple: Simple, at tests/derive_test.rs:40:1\n"
    );
    assert_eq!(text.matches("| ").count(), 1);
    let simple = Simple { location: place(42) };
    assert_eq!(
        suzunari_error::stack_report::format_report(&simple),
        "Error: Simple: Simple, at tests/derive_test.rs:42:1\n"
    );
}
