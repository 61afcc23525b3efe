//! Tests of the rewriting of `suzu` annotations: `from`, `location`, and
//! what is forwarded as `snafu` annotations.

use suzunari_error::attribute::suzunari_location_impl;
use suzunari_error::derive::stack_error_impl;
use suzunari_error::diagnostic::{DefinitionError, DiagnosticKind};
use suzunari_error::helper::{implicit_annotation, location_field_impl};
use suzunari_error::schema::{
    Annotation, ArgKind, ArgumentList, FieldDescriptor, Fields, GenericArg, Generics, ItemBody,
    PathArguments, PathSegment, ResolvedRoles, SchemaItem, TypeDescriptor, TypeShape,
    VariantDescriptor,
};
use suzunari_error::stack_report::format_report;
use suzunari_error::suzu_attr::{
    apply_location, apply_translate, extract_display_error_inner, has_snafu_implicit,
    has_snafu_source, process_fields, process_single_suzu_attr, process_suzu_attrs,
    process_type_level_attrs, process_variant_level_attrs, snafu_annotation, Level,
};
use suzunari_error::{BoxedStackError, DisplayError, ErasedError, Location, PlainError, StackError};

const CRATE: &str = "suzunari_error";
const FILE: &str = "tests/suzu_attr_test.rs";

// --- building a definition ---

fn path_type(text: &str, last: &str, span: u64) -> TypeDescriptor {
    TypeDescriptor {
        text: text.to_string(),
        shape: TypeShape::Path(Some(PathSegment {
            ident: last.to_string(),
            ident_span: span,
            arguments: PathArguments::Absent,
            span,
        })),
        span,
    }
}

fn display_error_of(inner: &str, span: u64) -> TypeDescriptor {
    TypeDescriptor {
        text: format!("DisplayError<{inner}>"),
        shape: TypeShape::Path(Some(PathSegment {
            ident: "DisplayError".to_string(),
            ident_span: span,
            arguments: PathArguments::AngleBracketed {
                args: vec![GenericArg { kind: ArgKind::Type, text: inner.to_string(), span }],
                span,
            },
            span,
        })),
        span,
    }
}

fn suzu(args: &str, span: u64) -> Annotation {
    Annotation::parse(Some("suzu".to_string()), Some(args), format!("suzu({args})"), span, &vec![])
}

fn snafu(args: &str, span: u64) -> Annotation {
    Annotation::parse(Some("snafu".to_string()), Some(args), format!("snafu({args})"), span, &vec![])
}

/// The text of the `snafu` annotation that forwards the items written in `args`.
fn forwarded(args: &str) -> String {
    match suzu(args, 0).list {
        ArgumentList::Items(items) => {
            let texts: Vec<String> = items.iter().map(|d| d.text.clone()).collect();
            format!("snafu({})", texts.join(", "))
        }
        other => panic!("no items: {other:?}"),
    }
}

fn derive_debug(span: u64) -> Annotation {
    Annotation::parse(Some("derive".to_string()), Some("Debug"), "derive(Debug)".to_string(), span, &vec![])
}

fn field(name: &str, ty: TypeDescriptor, attrs: Vec<Annotation>, span: u64) -> FieldDescriptor {
    FieldDescriptor { name: name.to_string(), ty, attrs, location_role: false, span }
}

fn no_generics() -> Generics {
    Generics { impl_generics: String::new(), ty_generics: String::new(), where_predicates: None }
}

fn record(name: &str, attrs: Vec<Annotation>, fields: Vec<FieldDescriptor>) -> SchemaItem {
    SchemaItem {
        name: name.to_string(),
        name_span: 1,
        attrs,
        generics: no_generics(),
        body: ItemBody::Struct { fields: Fields::Named(fields), fields_span: 2 },
        span: 0,
    }
}

fn variant(name: &str, attrs: Vec<Annotation>, fields: Fields, span: u64) -> VariantDescriptor {
    VariantDescriptor { name: name.to_string(), attrs, fields, span }
}

fn tagged(name: &str, attrs: Vec<Annotation>, variants: Vec<VariantDescriptor>) -> SchemaItem {
    SchemaItem {
        name: name.to_string(),
        name_span: 1,
        attrs,
        generics: no_generics(),
        body: ItemBody::Enum(variants),
        span: 0,
    }
}

fn fields_of(item: &SchemaItem) -> &Vec<FieldDescriptor> {
    match &item.body {
        ItemBody::Struct { fields: Fields::Named(fields), .. } => fields,
        other => panic!("no record with named fields: {other:?}"),
    }
}

fn variants_of(item: &SchemaItem) -> &Vec<VariantDescriptor> {
    match &item.body {
        ItemBody::Enum(variants) => variants,
        other => panic!("no tagged-variant type: {other:?}"),
    }
}

fn named(v: &VariantDescriptor) -> &Vec<FieldDescriptor> {
    match &v.fields {
        Fields::Named(fields) => fields,
        other => panic!("no named fields: {other:?}"),
    }
}

fn kinds(e: &DefinitionError) -> Vec<(DiagnosticKind, u64)> {
    e.diagnostics.iter().map(|d| (d.kind, d.span)).collect()
}

/// The annotation that converts from `original` with the adapter's constructor.
fn source_from(original: &str, span: u64) -> Annotation {
    let args = format!("from({original}, suzunari_error::DisplayError::new)");
    let mut a = snafu(&format!("source({args})"), span);
    // The text is built by the rewriter, not by the token printer.
    a.text = format!("snafu(source({args}))");
    if let ArgumentList::Items(items) = &mut a.list {
        items[0].args = args.clone();
        items[0].text = format!("source({args})");
    }
    a
}

// --- errors at run time, as the definitions above would give them ---

struct FakeLibError {
    message: &'static str,
}

impl std::fmt::Display for FakeLibError {
    fn fmt(&self, f: &mut std::fmt::Formatter<'_>) -> std::fmt::Result {
        f.write_str(self.message)
    }
}

impl std::fmt::Debug for FakeLibError {
    fn fmt(&self, f: &mut std::fmt::Formatter<'_>) -> std::fmt::Result {
        f.write_str(&format!("FakeLibError({})", self.message))
    }
}

/// An error whose cause is a value that is no error, behind the adapter.
struct Adapted {
    label: &'static str,
    display: String,
    source: DisplayError<FakeLibError>,
    location: Location,
}

impl StackError for Adapted {
    fn location(&self) -> &Location {
        &self.location
    }

    fn type_label(&self) -> &'static str {
        self.label
    }

    fn message(&self) -> String {
        self.display.clone()
    }

    fn stack_source(&self) -> Option<BoxedStackError> {
        None
    }

    fn plain_source(&self) -> Option<PlainError> {
        Some(PlainError::new(self.source.to_string()))
    }
}

fn adapted(label: &'static str, display: &str, cause: &'static str, line: u32) -> Adapted {
    Adapted {
        label,
        display: display.to_string(),
        source: DisplayError::new(FakeLibError { message: cause }),
        location: Location::current(FILE, line, 5),
    }
}

// --- from: basic enum usage ---

fn from_enum_error() -> SchemaItem {
    tagged(
        "FromEnumError",
        vec![],
        vec![
            variant(
                "HashFailed",
                vec![suzu("display(\"hashing failed\")", 10)],
                Fields::Named(vec![field(
                    "source",
                    path_type("FakeLibError", "FakeLibError", 12),
                    vec![suzu("from", 11)],
                    13,
                )]),
                14,
            ),
            variant(
                "Io",
                vec![suzu("display(\"io error\")", 20)],
                Fields::Named(vec![field(
                    "source",
                    path_type("std::io::Error", "Error", 22),
                    vec![],
                    23,
                )]),
                24,
            ),
        ],
    )
}

#[test]
fn test_from_enum_basic() {
    let (item, result) = process_suzu_attrs(&from_enum_error(), CRATE).unwrap();
    assert_eq!(result.has_explicit_location, vec![false, false]);
    let hash_failed = &variants_of(&item)[0];
    assert_eq!(hash_failed.attrs.len(), 1);
    assert_eq!(hash_failed.attrs[0].family, Some("snafu".to_string()));
    assert_eq!(hash_failed.attrs[0].text, forwarded("display(\"hashing failed\")"));
    let source = &named(hash_failed)[0];
    assert_eq!(source.ty.text, "suzunari_error::DisplayError<FakeLibError>");
    assert_eq!(extract_display_error_inner(&source.ty).unwrap().text, "FakeLibError");
    assert_eq!(source.attrs, vec![source_from("FakeLibError", 13)]);
    assert_eq!(
        source.attrs[0].text,
        "snafu(source(from(FakeLibError, suzunari_error::DisplayError::new)))"
    );
    assert!(!source.location_role);

    let err = adapted("FromEnumError::HashFailed", "hashing failed", "boom", 42);
    let report = format_report(&err);
    assert!(report.contains("hashing failed"));
    assert!(report.contains("boom"));
}

#[test]
fn test_from_enum_non_from_variant() {
    let (item, _) = process_suzu_attrs(&from_enum_error(), CRATE).unwrap();
    let io = &variants_of(&item)[1];
    assert_eq!(io.attrs[0].text, forwarded("display(\"io error\")"));
    assert_eq!(named(io)[0], field("source", path_type("std::io::Error", "Error", 22), vec![], 23));

    let cause = std::io::Error::new(std::io::ErrorKind::NotFound, "not found");
    let err = ErasedError::new(
        "FromEnumError::Io",
        "io error".to_string(),
        Location::current(FILE, 56, 5),
    )
    .with_plain_source(PlainError::new(cause.to_string()));
    let report = format_report(&err);
    assert!(report.contains("io error"));
    assert!(report.contains("not found"));
}

// --- from: struct usage ---

#[test]
fn test_from_struct() {
    let item = record(
        "FromStructError",
        vec![suzu("display(\"struct from error\")", 3)],
        vec![field("source", path_type("FakeLibError", "FakeLibError", 5), vec![suzu("from", 4)], 6)],
    );
    let (item, result) = process_suzu_attrs(&item, CRATE).unwrap();
    assert_eq!(result.has_explicit_location, vec![false]);
    assert_eq!(item.attrs[0].text, forwarded("display(\"struct from error\")"));
    assert_eq!(fields_of(&item)[0].ty.text, "suzunari_error::DisplayError<FakeLibError>");
    assert!(has_snafu_source(&fields_of(&item)[0].attrs));

    let err = adapted("FromStructError", "struct from error", "struct boom", 78);
    let report = format_report(&err);
    assert!(report.contains("struct from error"));
    assert!(report.contains("struct boom"));
}

/// The older spelling of the directive does the same.
#[test]
fn test_translate_attr_auto_convert() {
    let written = |word: &str| {
        record(
            "TranslateConvertError",
            vec![suzu("display(\"translate op failed\")", 3)],
            vec![field("source", path_type("FakeLibError", "FakeLibError", 5), vec![suzu(word, 4)], 6)],
        )
    };
    let (with_translate, _) = process_suzu_attrs(&written("translate"), CRATE).unwrap();
    let (with_from, _) = process_suzu_attrs(&written("from"), CRATE).unwrap();
    assert_eq!(with_translate, with_from);
    assert_eq!(
        fields_of(&with_translate)[0].ty.text,
        "suzunari_error::DisplayError<FakeLibError>"
    );

    let err = adapted("TranslateConvertError", "translate op failed", "translate broke", 91);
    let report = format_report(&err);
    assert!(report.contains("translate op failed"));
    assert!(report.contains("translate broke"));
}

// --- from: already DisplayError<T> (no double-wrapping) ---

#[test]
fn test_from_already_display_error() {
    let item = record(
        "AlreadyWrappedError",
        vec![suzu("display(\"already wrapped\")", 3)],
        vec![field("source", display_error_of("FakeLibError", 5), vec![suzu("from", 4)], 6)],
    );
    let (item, _) = process_suzu_attrs(&item, CRATE).unwrap();
    let source = &fields_of(&item)[0];
    assert_eq!(source.ty, display_error_of("FakeLibError", 5));
    assert_eq!(source.attrs, vec![source_from("FakeLibError", 6)]);

    let err = adapted("AlreadyWrappedError", "already wrapped", "already wrapped", 100);
    let report = format_report(&err);
    assert!(report.contains("already wrapped"));
}

#[test]
fn test_translate_attr_already_wrapped() {
    let item = record(
        "TranslateAlreadyWrappedError",
        vec![suzu("display(\"translate already wrapped\")", 3)],
        vec![field("source", display_error_of("FakeLibError", 5), vec![suzu("translate", 4)], 6)],
    );
    let (item, _) = process_suzu_attrs(&item, CRATE).unwrap();
    assert_eq!(fields_of(&item)[0].ty.text, "DisplayError<FakeLibError>");

    let err = adapted("TranslateAlreadyWrappedError", "translate already wrapped", "already wrapped", 105);
    let report = format_report(&err);
    assert!(report.contains("translate already wrapped"));
}

// --- location: explicit #[suzu(location)] ---

#[test]
fn test_explicit_location() {
    let item = record(
        "ExplicitLocationError",
        vec![suzu("display(\"explicit location\")", 3)],
        vec![field("location", path_type("Location", "Location", 5), vec![suzu("location", 4)], 6)],
    );
    let (item, result) = process_suzu_attrs(&item, CRATE).unwrap();
    assert_eq!(result.has_explicit_location, vec![true]);
    let location = &fields_of(&item)[0];
    assert!(location.location_role);
    assert_eq!(location.attrs, vec![implicit_annotation(6)]);
    assert!(has_snafu_implicit(&location.attrs));

    let (settled, roles) = suzunari_location_impl(&item, CRATE).unwrap();
    assert_eq!(roles, vec![ResolvedRoles { location_field: 0, source_field: None }]);
    assert_eq!(settled, item);

    let err = ErasedError::new(
        "ExplicitLocationError",
        "explicit location".to_string(),
        Location::current(FILE, 116, 15),
    );
    assert!(err.location().file().ends_with("suzu_attr_test.rs"));
}

// --- location: mixed explicit and auto-inject in enum ---

#[test]
fn test_mixed_location_enum() {
    let item = tagged(
        "MixedLocationEnum",
        vec![],
        vec![
            variant(
                "AutoInjected",
                vec![suzu("display(\"auto injected\")", 10)],
                Fields::Named(vec![field("message", path_type("String", "String", 11), vec![], 12)]),
                13,
            ),
            variant(
                "ExplicitLoc",
                vec![suzu("display(\"explicit loc\")", 20)],
                Fields::Named(vec![
                    field("message", path_type("String", "String", 21), vec![], 22),
                    field("location", path_type("Location", "Location", 24), vec![suzu("location", 23)], 25),
                ]),
                26,
            ),
        ],
    );
    let (item, result) = process_suzu_attrs(&item, CRATE).unwrap();
    assert_eq!(result.has_explicit_location, vec![false, true]);
    let (settled, roles) = suzunari_location_impl(&item, CRATE).unwrap();
    assert_eq!(
        roles,
        vec![
            ResolvedRoles { location_field: 1, source_field: None },
            ResolvedRoles { location_field: 1, source_field: None },
        ]
    );
    let auto = named(&variants_of(&settled)[0]);
    assert_eq!(auto.len(), 2);
    assert_eq!(auto[1], location_field_impl(CRATE, 13));
    let explicit = named(&variants_of(&settled)[1]);
    assert_eq!(explicit.len(), 2);
    assert_eq!(explicit, named(&variants_of(&item)[1]));

    let err = ErasedError::new(
        "MixedLocationEnum::AutoInjected",
        "auto injected".to_string(),
        Location::current(FILE, 136, 15),
    );
    assert!(err.location().file().ends_with("suzu_attr_test.rs"));
    let err = ErasedError::new(
        "MixedLocationEnum::ExplicitLoc",
        "explicit loc".to_string(),
        Location::current(FILE, 142, 15),
    );
    assert!(err.location().file().ends_with("suzu_attr_test.rs"));
}

// --- snafu passthrough only (no suzunari extensions) ---

#[test]
fn test_passthrough_only() {
    let item = tagged(
        "PassthroughOnlyError",
        vec![derive_debug(5)],
        vec![variant(
            "Passthrough",
            vec![suzu("display(\"pass {msg}\")", 10)],
            Fields::Named(vec![field("msg", path_type("String", "String", 11), vec![], 12)]),
            13,
        )],
    );
    let (rewritten, result) = process_suzu_attrs(&item, CRATE).unwrap();
    assert_eq!(result.has_explicit_location, vec![false]);
    assert_eq!(rewritten.attrs, vec![derive_debug(5)]);
    let v = &variants_of(&rewritten)[0];
    assert_eq!(v.attrs.len(), 1);
    assert_eq!(v.attrs[0].family, Some("snafu".to_string()));
    assert_eq!(v.attrs[0].list, suzu("display(\"pass {msg}\")", 10).list);
    assert_eq!(v.attrs[0].span, 10);
    assert_eq!(named(v), named(&variants_of(&item)[0]));

    let err = ErasedError::new(
        "PassthroughOnlyError::Passthrough",
        "pass through".to_string(),
        Location::current(FILE, 159, 15),
    );
    let report = format_report(&err);
    assert!(report.contains("pass through"));
}

// --- mixed: suzu(display(...)) on variant + suzu(from) on field ---

#[test]
fn test_mixed_suzu_attrs() {
    let item = tagged(
        "MixedSuzuError",
        vec![],
        vec![variant(
            "Mixed",
            vec![suzu("display(\"mixed display: {context}\")", 10)],
            Fields::Named(vec![
                field("context", path_type("String", "String", 11), vec![], 12),
                field("source", path_type("FakeLibError", "FakeLibError", 14), vec![suzu("from", 13)], 15),
            ]),
            16,
        )],
    );
    let (item, _) = process_suzu_attrs(&item, CRATE).unwrap();
    let v = &variants_of(&item)[0];
    assert_eq!(v.attrs[0].text, forwarded("display(\"mixed display: {context}\")"));
    assert_eq!(named(v)[0].ty.text, "String");
    assert_eq!(named(v)[1].ty.text, "suzunari_error::DisplayError<FakeLibError>");

    let err = adapted("MixedSuzuError::Mixed", "mixed display: ctx", "mixed boom", 186);
    let report = format_report(&err);
    assert!(report.contains("mixed display: ctx"));
    assert!(report.contains("mixed boom"));
}

// --- StackReport output verification ---

#[test]
fn test_stack_report_with_from_chain() {
    // The definitions: OuterError { source: FromEnumError }.
    let outer = record(
        "OuterError",
        vec![suzu("display(\"outer error\")", 3)],
        vec![field("source", path_type("FromEnumError", "FromEnumError", 5), vec![], 6)],
    );
    let (outer, _) = process_suzu_attrs(&outer, CRATE).unwrap();
    let (outer, roles) = suzunari_location_impl(&outer, CRATE).unwrap();
    assert_eq!(roles, vec![ResolvedRoles { location_field: 1, source_field: Some(0) }]);
    let plan = stack_error_impl(&outer, CRATE, true).unwrap();
    assert!(plan.has_stack_source);
    assert_eq!(plan.units[0].location_field, "location");
    assert_eq!(
        plan.units[0].source_field,
        Some("source".to_string())
    );

    // The errors: OuterError -> FromEnumError::HashFailed -> DisplayError.
    let inner = adapted("FromEnumError::HashFailed", "hashing failed", "hash fail", 212);
    let err = ErasedError::new("OuterError", "outer error".to_string(), Location::current(FILE, 216, 9))
        .with_stack_source(BoxedStackError::new(inner));
    // Should have depth 2: OuterError -> FromEnumError::HashFailed -> DisplayError
    assert_eq!(err.depth(), 2);
    let report = format_report(&err);
    assert!(report.contains("outer error"));
    assert!(report.contains("hashing failed"));
    assert!(report.contains("hash fail"));
    assert_eq!(
        report,
        "Error: OuterError: outer error, at tests/suzu_attr_test.rs:216:9\nCaused by the following errors (recent errors listed first):\n  1| FromEnumError::HashFailed: hashing failed, at tests/suzu_attr_test.rs:212:5\n  2| hash fail\n"
    );
}

// --- one annotation ---

#[test]
fn single_annotation_is_split() {
    let single = process_single_suzu_attr(&suzu("from, display(\"x\"), location, visibility(pub)", 9), Level::Field);
    let single = single.unwrap();
    assert_eq!(single.from_word, Some("from".to_string()));
    assert!(single.has_location);
    let forwarded = single.snafu_passthrough.unwrap();
    assert_eq!(forwarded.family, Some("snafu".to_string()));
    assert_eq!(forwarded.span, 9);
    match &forwarded.list {
        ArgumentList::Items(items) => {
            assert_eq!(items.len(), 2);
            assert_eq!(items[0].head, Some("display".to_string()));
            assert_eq!(items[1].head, Some("visibility".to_string()));
            assert_eq!(forwarded.text, format!("snafu({}, {})", items[0].text, items[1].text));
        }
        other => panic!("no items: {other:?}"),
    }
}

#[test]
fn role_words_alone_forward_nothing() {
    let single = process_single_suzu_attr(&suzu("location", 9), Level::Field).unwrap();
    assert_eq!(single.snafu_passthrough, None);
    assert!(single.has_location);
    assert_eq!(single.from_word, None);
}

#[test]
fn role_words_with_arguments_are_forwarded() {
    // Only the bare words are role directives.
    let single = process_single_suzu_attr(&suzu("location(here), from = 1", 9), Level::Type).unwrap();
    assert!(!single.has_location);
    assert_eq!(single.from_word, None);
    match single.snafu_passthrough.unwrap().list {
        ArgumentList::Items(items) => assert_eq!(items.len(), 2),
        other => panic!("no items: {other:?}"),
    }
}

#[test]
fn annotation_without_arguments_is_rejected() {
    let bare = Annotation::parse(Some("suzu".to_string()), None, "suzu".to_string(), 4, &vec![]);
    let e = process_single_suzu_attr(&bare, Level::Field).unwrap_err();
    assert_eq!(kinds(&e), vec![(DiagnosticKind::MissingArguments, 4)]);
    assert_eq!(e.diagnostics[0].message(), "#[suzu] requires arguments");
    let empty = process_single_suzu_attr(&suzu("", 5), Level::Type).unwrap_err();
    assert_eq!(kinds(&empty), vec![(DiagnosticKind::MissingArguments, 5)]);
}

#[test]
fn malformed_annotation_is_rejected_with_the_parsers_words() {
    let e = process_single_suzu_attr(&suzu("display(", 6), Level::Variant).unwrap_err();
    assert_eq!(kinds(&e), vec![(DiagnosticKind::Syntax, 6)]);
    assert!(!e.diagnostics[0].detail.is_empty());
    assert_eq!(e.diagnostics[0].message(), e.diagnostics[0].detail);
}

#[test]
fn role_directives_off_a_field_are_rejected() {
    for level in [Level::Type, Level::Variant] {
        let e = process_single_suzu_attr(&suzu("display(\"x\"), from", 7), level).unwrap_err();
        assert_eq!(kinds(&e), vec![(DiagnosticKind::FromNotOnField, 7)]);
        assert_eq!(e.diagnostics[0].message(), "`from` can only be used on fields");
        let e = process_single_suzu_attr(&suzu("translate", 7), level).unwrap_err();
        assert_eq!(kinds(&e), vec![(DiagnosticKind::FromNotOnField, 7)]);
        assert_eq!(e.diagnostics[0].message(), "`translate` can only be used on fields");
        let e = process_single_suzu_attr(&suzu("location", 8), level).unwrap_err();
        assert_eq!(kinds(&e), vec![(DiagnosticKind::LocationNotOnField, 8)]);
        assert_eq!(e.diagnostics[0].message(), "`location` can only be used on fields");
        // The first of them decides.
        let e = process_single_suzu_attr(&suzu("location, from", 8), level).unwrap_err();
        assert_eq!(kinds(&e), vec![(DiagnosticKind::LocationNotOnField, 8)]);
        let e = process_single_suzu_attr(&suzu("from, location", 8), level).unwrap_err();
        assert_eq!(kinds(&e), vec![(DiagnosticKind::FromNotOnField, 8)]);
    }
}

#[test]
fn from_beside_source_is_rejected() {
    let e = process_single_suzu_attr(
        &suzu("from, source(from(String, suzunari_error::DisplayError::new))", 3),
        Level::Field,
    )
    .unwrap_err();
    assert_eq!(kinds(&e), vec![(DiagnosticKind::FromWithSource, 3)]);
    let e = process_single_suzu_attr(&suzu("source, translate", 3), Level::Field).unwrap_err();
    assert_eq!(kinds(&e), vec![(DiagnosticKind::FromWithSource, 3)]);
    // `source` alone is forwarded.
    let ok = process_single_suzu_attr(&suzu("source", 3), Level::Field).unwrap();
    assert_eq!(ok.from_word, None);
    assert!(ok.snafu_passthrough.is_some());
}

/// The conflict names the word that was written; of two, the first.
#[test]
fn conflict_with_source_names_the_written_word() {
    let e = process_single_suzu_attr(
        &suzu("translate, source(from(String, suzunari_error::DisplayError::new))", 3),
        Level::Field,
    )
    .unwrap_err();
    assert_eq!(kinds(&e), vec![(DiagnosticKind::FromWithSource, 3)]);
    assert_eq!(e.diagnostics[0].detail, "translate");
    assert_eq!(
        e.diagnostics[0].message(),
        "`translate` conflicts with `source(...)` — `translate` generates `source(from(...))` automatically"
    );
    let e = process_single_suzu_attr(
        &suzu("from, source(from(String, suzunari_error::DisplayError::new))", 3),
        Level::Field,
    )
    .unwrap_err();
    assert_eq!(
        e.diagnostics[0].message(),
        "`from` conflicts with `source(...)` — `from` generates `source(from(...))` automatically"
    );
    let e = process_single_suzu_attr(&suzu("source, translate, from", 3), Level::Field).unwrap_err();
    assert_eq!(e.diagnostics[0].detail, "translate");
    let ok = process_single_suzu_attr(&suzu("from, translate", 3), Level::Field).unwrap();
    assert_eq!(ok.from_word, Some("from".to_string()));
    assert_eq!(ok.snafu_passthrough, None);
}

/// A misplaced role directive is reported where it is written.
#[test]
fn misplaced_role_is_reported_at_the_directive() {
    let placed = |args: &str| {
        Annotation::parse(
            Some("suzu".to_string()),
            Some(args),
            format!("suzu({args})"),
            9,
            &vec![21, 22, 23],
        )
    };
    for level in [Level::Type, Level::Variant] {
        let e = process_single_suzu_attr(&placed("display(\"x\"), translate, location"), level)
            .unwrap_err();
        assert_eq!(kinds(&e), vec![(DiagnosticKind::FromNotOnField, 22)]);
        assert_eq!(e.diagnostics[0].message(), "`translate` can only be used on fields");
        let e = process_single_suzu_attr(&placed("display(\"x\"), visibility(pub), location"), level)
            .unwrap_err();
        assert_eq!(kinds(&e), vec![(DiagnosticKind::LocationNotOnField, 23)]);
        let e = process_single_suzu_attr(&placed("from"), level).unwrap_err();
        assert_eq!(kinds(&e), vec![(DiagnosticKind::FromNotOnField, 21)]);
        // The annotation's other errors stay at the annotation.
        let e = process_single_suzu_attr(&placed(""), level).unwrap_err();
        assert_eq!(kinds(&e), vec![(DiagnosticKind::MissingArguments, 9)]);
    }
    // The same lists are accepted on a field.
    let ok = process_single_suzu_attr(&placed("display(\"x\"), translate"), Level::Field).unwrap();
    assert_eq!(ok.from_word, Some("translate".to_string()));
    let ok = process_single_suzu_attr(&placed("display(\"x\"), visibility(pub), location"), Level::Field)
        .unwrap();
    assert!(ok.has_location);
    let e = process_single_suzu_attr(&placed("translate, source"), Level::Field).unwrap_err();
    assert_eq!(kinds(&e), vec![(DiagnosticKind::FromWithSource, 9)]);
}

// --- the annotations of a type or a case ---

#[test]
fn type_level_annotations_are_forwarded() {
    let attrs = vec![derive_debug(1), suzu("display(\"a\")", 2), snafu("visibility(pub)", 3), suzu("module", 4)];
    let kept = process_type_level_attrs(&attrs).unwrap();
    assert_eq!(kept.len(), 4);
    assert_eq!(kept[0], derive_debug(1));
    assert_eq!(kept[1].text, forwarded("display(\"a\")"));
    assert_eq!(kept[2], snafu("visibility(pub)", 3));
    assert_eq!(kept[3].text, forwarded("module"));
    assert_eq!(process_variant_level_attrs(&attrs).unwrap(), kept);
    assert_eq!(process_type_level_attrs(&vec![]).unwrap(), vec![]);
}

#[test]
fn type_level_errors_are_reported_together() {
    let attrs = vec![suzu("location", 1), derive_debug(2), suzu("from", 3), suzu("", 4)];
    let e = process_type_level_attrs(&attrs).unwrap_err();
    assert_eq!(
        kinds(&e),
        vec![
            (DiagnosticKind::LocationNotOnField, 1),
            (DiagnosticKind::FromNotOnField, 3),
            (DiagnosticKind::MissingArguments, 4),
        ]
    );
    let e = process_variant_level_attrs(&attrs).unwrap_err();
    assert_eq!(e.diagnostics.len(), 3);
}

// --- the fields of a unit ---

#[test]
fn from_on_a_field_with_a_source_directive_is_rejected() {
    let fields = vec![field(
        "source",
        path_type("String", "String", 1),
        vec![snafu("source(from(String, suzunari_error::DisplayError::new))", 2), suzu("from", 3)],
        4,
    )];
    let e = process_fields(&fields, CRATE).unwrap_err();
    assert_eq!(kinds(&e), vec![(DiagnosticKind::FromWithExistingSource, 4)]);
    assert_eq!(
        e.diagnostics[0].message(),
        "`from` conflicts with existing `#[snafu(source(...))]`"
    );
    // The word that was written is named, and the type of the field is not touched.
    let fields = vec![field(
        "source",
        path_type("String", "String", 1),
        vec![snafu("source(from(String, suzunari_error::DisplayError::new))", 2), suzu("translate", 3)],
        4,
    )];
    let e = process_fields(&fields, CRATE).unwrap_err();
    assert_eq!(kinds(&e), vec![(DiagnosticKind::FromWithExistingSource, 4)]);
    assert_eq!(
        e.diagnostics[0].message(),
        "`translate` conflicts with existing `#[snafu(source(...))]`"
    );
    let e = apply_translate(
        &path_type("String", "String", 1),
        &vec![snafu("source", 2)],
        CRATE,
        4,
        "translate",
    )
    .unwrap_err();
    assert_eq!(kinds(&e), vec![(DiagnosticKind::FromWithExistingSource, 4)]);
    assert_eq!(e.diagnostics[0].detail, "translate");
    for written in ["source", "source(false)", "source = 1"] {
        assert!(apply_translate(
            &path_type("String", "String", 1),
            &vec![snafu(written, 2)],
            CRATE,
            4,
            "from",
        )
        .is_err());
    }
}

#[test]
fn from_and_location_on_one_field_are_rejected() {
    let fields = vec![field(
        "source",
        path_type("suzunari_error::Location", "Location", 1),
        vec![suzu("from, location", 2)],
        3,
    )];
    let e = process_fields(&fields, CRATE).unwrap_err();
    assert_eq!(kinds(&e), vec![(DiagnosticKind::FromWithLocation, 3)]);
    assert_eq!(
        e.diagnostics[0].message(),
        "`from` and `location` cannot be used on the same field"
    );
    // In two annotations, too.
    let fields = vec![field(
        "source",
        path_type("suzunari_error::Location", "Location", 1),
        vec![suzu("location", 2), suzu("translate", 5)],
        3,
    )];
    let e = process_fields(&fields, CRATE).unwrap_err();
    assert_eq!(kinds(&e), vec![(DiagnosticKind::FromWithLocation, 3)]);
    assert_eq!(
        e.diagnostics[0].message(),
        "`translate` and `location` cannot be used on the same field"
    );
}

#[test]
fn errors_of_all_fields_are_reported_together() {
    let fields = vec![
        field("a", path_type("A", "A", 1), vec![suzu("", 11)], 12),
        field("b", path_type("B", "B", 2), vec![suzu("display(", 21), suzu("from", 22), snafu("source", 23)], 24),
        field("c", path_type("C", "C", 3), vec![suzu("location", 31)], 32),
        field("d", path_type("D", "D", 4), vec![suzu("from, source", 41)], 42),
    ];
    let e = process_fields(&fields, CRATE).unwrap_err();
    assert_eq!(
        kinds(&e),
        vec![
            (DiagnosticKind::MissingArguments, 11),
            (DiagnosticKind::Syntax, 21),
            (DiagnosticKind::FromWithExistingSource, 24),
            (DiagnosticKind::FromWithSource, 41),
        ]
    );
}

#[test]
fn fields_without_suzu_are_kept() {
    let fields = vec![
        field("message", path_type("String", "String", 1), vec![snafu("implicit", 2), derive_debug(3)], 4),
        field("count", path_type("u32", "u32", 5), vec![], 6),
    ];
    let (kept, marked) = process_fields(&fields, CRATE).unwrap();
    assert_eq!(kept, fields);
    assert!(!marked);
    let (none, marked) = process_fields(&vec![], CRATE).unwrap();
    assert!(none.is_empty());
    assert!(!marked);
}

#[test]
fn location_keeps_an_implicit_that_is_there() {
    let fields = vec![field(
        "at",
        path_type("Location", "Location", 1),
        vec![suzu("location, implicit", 2)],
        3,
    )];
    let (kept, marked) = process_fields(&fields, CRATE).unwrap();
    assert!(marked);
    assert!(kept[0].location_role);
    assert_eq!(kept[0].attrs.len(), 1);
    assert_eq!(kept[0].attrs[0].text, "snafu(implicit)");

    let mut attrs = vec![snafu("display(\"x\"), implicit", 1)];
    apply_location(&mut attrs, 9);
    assert_eq!(attrs.len(), 1);
    let mut attrs = vec![snafu("implicit(false)", 1), derive_debug(2)];
    assert!(!has_snafu_implicit(&attrs));
    apply_location(&mut attrs, 9);
    assert_eq!(attrs.len(), 3);
    assert_eq!(attrs[2], implicit_annotation(9));
}

#[test]
fn translate_wraps_the_unit_type() {
    let unit = TypeDescriptor { text: "()".to_string(), shape: TypeShape::Unit, span: 5 };
    let (wrapped, added) = apply_translate(&unit, &vec![], "crate", 8, "from").unwrap();
    assert_eq!(wrapped.text, "crate::DisplayError<()>");
    assert_eq!(extract_display_error_inner(&wrapped).unwrap().kind, ArgKind::Unit);
    assert_eq!(added.text, "snafu(source(from((), crate::DisplayError::new)))");
    assert_eq!(added.span, 8);
}

#[test]
fn adapter_is_told_by_its_shape() {
    assert!(extract_display_error_inner(&path_type("DisplayError", "DisplayError", 1)).is_none());
    assert!(extract_display_error_inner(&path_type("String", "String", 1)).is_none());
    let two = TypeDescriptor {
        text: "DisplayError<A, B>".to_string(),
        shape: TypeShape::Path(Some(PathSegment {
            ident: "DisplayError".to_string(),
            ident_span: 1,
            arguments: PathArguments::AngleBracketed {
                args: vec![
                    GenericArg { kind: ArgKind::Type, text: "A".to_string(), span: 1 },
                    GenericArg { kind: ArgKind::Type, text: "B".to_string(), span: 1 },
                ],
                span: 1,
            },
            span: 1,
        })),
        span: 1,
    };
    assert!(extract_display_error_inner(&two).is_none());
    let lifetime = TypeDescriptor {
        text: "DisplayError<'a>".to_string(),
        shape: TypeShape::Path(Some(PathSegment {
            ident: "DisplayError".to_string(),
            ident_span: 1,
            arguments: PathArguments::AngleBracketed {
                args: vec![GenericArg { kind: ArgKind::Other, text: "'a".to_string(), span: 1 }],
                span: 1,
            },
            span: 1,
        })),
        span: 1,
    };
    assert!(extract_display_error_inner(&lifetime).is_none());
    assert_eq!(
        extract_display_error_inner(&display_error_of("T", 1)),
        Some(&GenericArg { kind: ArgKind::Type, text: "T".to_string(), span: 1 })
    );
}

#[test]
fn forwarding_annotation_joins_the_texts() {
    let items = match suzu("a, b(c), d = 1", 1).list {
        ArgumentList::Items(items) => items,
        other => panic!("no items: {other:?}"),
    };
    let texts: Vec<String> = items.iter().map(|d| d.text.clone()).collect();
    let a = snafu_annotation(items, 4);
    assert_eq!(a.text, format!("snafu({})", texts.join(", ")));
    assert_eq!(snafu_annotation(vec![], 4).text, "snafu()");
}

// --- whole definitions ---

#[test]
fn unions_are_rejected() {
    let item = SchemaItem {
        name: "U".to_string(),
        name_span: 1,
        attrs: vec![],
        generics: no_generics(),
        body: ItemBody::Union,
        span: 77,
    };
    let e = process_suzu_attrs(&item, CRATE).unwrap_err();
    assert_eq!(kinds(&e), vec![(DiagnosticKind::SuzuOnUnion, 77)]);
    assert_eq!(e.diagnostics[0].message(), "#[suzu] cannot be used on unions");
}

#[test]
fn the_first_place_in_error_ends_the_pass() {
    let item = tagged(
        "E",
        vec![suzu("location", 1)],
        vec![variant("A", vec![suzu("from", 2)], Fields::Unit, 3)],
    );
    let e = process_suzu_attrs(&item, CRATE).unwrap_err();
    assert_eq!(kinds(&e), vec![(DiagnosticKind::LocationNotOnField, 1)]);
    let item = tagged(
        "E",
        vec![],
        vec![
            variant("A", vec![suzu("display(\"a\")", 2)], Fields::Unit, 3),
            variant("B", vec![suzu("from", 4), suzu("location", 5)], Fields::Unnamed, 6),
            variant("C", vec![suzu("", 7)], Fields::Unit, 8),
        ],
    );
    let e = process_suzu_attrs(&item, CRATE).unwrap_err();
    assert_eq!(
        kinds(&e),
        vec![(DiagnosticKind::FromNotOnField, 4), (DiagnosticKind::LocationNotOnField, 5)]
    );
}

#[test]
fn records_without_named_fields_are_rewritten_at_the_type() {
    let item = SchemaItem {
        name: "Unit".to_string(),
        name_span: 1,
        attrs: vec![suzu("display(\"unit\")", 2)],
        generics: no_generics(),
        body: ItemBody::Struct { fields: Fields::Unit, fields_span: 3 },
        span: 4,
    };
    let (rewritten, result) = process_suzu_attrs(&item, CRATE).unwrap();
    assert_eq!(result.has_explicit_location, vec![false]);
    assert_eq!(rewritten.attrs[0].text, forwarded("display(\"unit\")"));
    assert_eq!(rewritten.body, ItemBody::Struct { fields: Fields::Unit, fields_span: 3 });
}
