//! The directive rewriter: `suzu` annotations on types, cases and fields are
//! split into role directives, which are handled here, and all other
//! directives, which are forwarded as `snafu` annotations.

use vstd::prelude::*;
use crate::diagnostic::{
    all_diagnostics, combine_errors, plain_diagnostic, DefinitionError, DiagnosticKind,
    DiagnosticView,
};
use crate::helper::{
    family_is, find_last_headed, head_is, implicit_annotation, implicit_annotation_view,
    is_source_field_spec, last_headed, snafu_directives, snafu_directives_spec, snafu_group,
};
use crate::schema::{
    Annotation, AnnotationView, ArgKind, ArgumentList, ArgumentListView, Directive, DirectiveView,
    FieldDescriptor, FieldView, Fields, FieldsView, GenericArg, GenericArgView, ItemBody,
    ItemBodyView, MetaForm, PathArguments, PathArgumentsView, PathSegment, PathSegmentView,
    SchemaItem, SchemaItemView, TypeDescriptor, TypeShape, TypeShapeView, TypeView,
    VariantDescriptor, VariantView,
};
use crate::text::str_eq;
use crate::derive::clone_generics;
use crate::views::{deep, lemma_deep_add, lemma_deep_push};

verus! {

/// Where an annotation stands.
#[derive(Clone, Copy, Debug, PartialEq, Eq, Structural)]
pub enum Level {
    Type,
    Variant,
    Field,
}

/// Whether `d` is the bare word `name`.
pub open spec fn is_word(d: DirectiveView, name: Seq<char>) -> bool {
    d.form == MetaForm::Path && d.head == Some(name)
}

/// Whether `d` is the originates-from role directive, written `from` or `translate`.
pub open spec fn is_from_role(d: DirectiveView) -> bool {
    is_word(d, "from"@) || is_word(d, "translate"@)
}

/// Whether `d` is the location role directive, written `location`.
pub open spec fn is_location_role(d: DirectiveView) -> bool {
    is_word(d, "location"@)
}

/// No directive is both role directives.
pub proof fn lemma_roles_differ(d: DirectiveView)
    ensures
        !(is_from_role(d) && is_location_role(d)),
{
    reveal_strlit("from");
    reveal_strlit("translate");
    reveal_strlit("location");
    assert("from"@.len() != "location"@.len());
}

/// Whether `d` is the bare word `name`.
pub fn meta_is_ident(d: &Directive, name: &str) -> (r: bool)
    ensures
        r == is_word(d.deep_view(), name@),
{
    match d.form {
        MetaForm::Path => head_is(d, name),
        _ => false,
    }
}

/// Whether `d` starts with the word `name`, whatever follows it.
pub fn meta_is_ident_prefix(d: &Directive, name: &str) -> (r: bool)
    ensures
        r == (d.deep_view().head == Some(name@)),
{
    head_is(d, name)
}

/// The word with which the first originates-from role directive of a list
/// is written, where the list has one.
pub open spec fn first_from_word(items: Seq<DirectiveView>) -> Option<Seq<char>>
    decreases items.len(),
{
    if items.len() == 0 {
        None
    } else {
        match first_from_word(items.drop_last()) {
            Some(word) => Some(word),
            None => if is_from_role(items.last()) {
                items.last().head
            } else {
                None
            },
        }
    }
}

/// Whether some item is the location role directive.
pub open spec fn any_location(items: Seq<DirectiveView>) -> bool
    decreases items.len(),
{
    items.len() > 0 && (any_location(items.drop_last()) || is_location_role(items.last()))
}

/// Whether some item is the bare word `name`.
pub open spec fn any_word(items: Seq<DirectiveView>, name: Seq<char>) -> bool
    decreases items.len(),
{
    items.len() > 0 && (any_word(items.drop_last(), name) || is_word(items.last(), name))
}

/// The items that are no role directives, in order.
pub open spec fn passthrough_of(items: Seq<DirectiveView>) -> Seq<DirectiveView>
    decreases items.len(),
{
    if items.len() == 0 {
        Seq::empty()
    } else if is_from_role(items.last()) || is_location_role(items.last()) {
        passthrough_of(items.drop_last())
    } else {
        passthrough_of(items.drop_last()).push(items.last())
    }
}

/// What is said of a role directive where role directives are not allowed:
/// the diagnostic names the word that is written, at the place of the directive.
pub open spec fn misplaced_role(d: DirectiveView) -> Option<DiagnosticView> {
    if is_from_role(d) {
        Some(
            DiagnosticView {
                kind: DiagnosticKind::FromNotOnField,
                span: d.span,
                detail: d.head.unwrap(),
            },
        )
    } else if is_location_role(d) {
        Some(plain_diagnostic(DiagnosticKind::LocationNotOnField, d.span))
    } else {
        None
    }
}

/// What is said of the first role directive of a list where role directives
/// are not allowed.
pub open spec fn first_misplaced_role(items: Seq<DirectiveView>) -> Option<DiagnosticView>
    decreases items.len(),
{
    if items.len() == 0 {
        None
    } else {
        match first_misplaced_role(items.drop_last()) {
            Some(d) => Some(d),
            None => misplaced_role(items.last()),
        }
    }
}

/// The first role directive of a list stays the first when the list goes on.
pub proof fn lemma_first_misplaced_role_stays(items: Seq<DirectiveView>, n: int)
    requires
        0 <= n <= items.len(),
        first_misplaced_role(items.take(n)) is Some,
    ensures
        first_misplaced_role(items) == first_misplaced_role(items.take(n)),
    decreases items.len() - n,
{
    if n < items.len() {
        assert(items.take(n + 1).drop_last() =~= items.take(n));
        lemma_first_misplaced_role_stays(items, n + 1);
    } else {
        assert(items.take(n) =~= items);
    }
}

/// The texts of a list of items, each two of them parted by `, `.
pub open spec fn joined_texts(items: Seq<DirectiveView>) -> Seq<char>
    decreases items.len(),
{
    if items.len() == 0 {
        Seq::empty()
    } else if items.len() == 1 {
        items[0].text
    } else {
        joined_texts(items.drop_last()) + ", "@ + items.last().text
    }
}

/// The `snafu` annotation that forwards `items`.
pub open spec fn snafu_annotation_view(items: Seq<DirectiveView>, span: u64) -> AnnotationView {
    AnnotationView {
        family: Some("snafu"@),
        list: ArgumentListView::Items(items),
        text: "snafu("@ + joined_texts(items) + ")"@,
        span,
    }
}

/// The `snafu` annotation that forwards `items`.
pub fn snafu_annotation(items: Vec<Directive>, span: u64) -> (a: Annotation)
    ensures
        a.deep_view() == snafu_annotation_view(items.deep_view(), span),
{
    let mut text = "snafu(".to_owned();
    let mut i: usize = 0;
    assert(text@ =~= "snafu("@ + joined_texts(items.deep_view().take(0)));
    while i < items.len()
        invariant
            i <= items.len(),
            text@ == "snafu("@ + joined_texts(items.deep_view().take(i as int)),
        decreases items.len() - i,
    {
        proof {
            assert(items.deep_view().take(i + 1).drop_last() =~= items.deep_view().take(i as int));
        }
        if i > 0 {
            text.append(", ");
        }
        text.append(items[i].text.as_str());
        proof {
            if i > 0 {
                assert(text@ =~= "snafu("@ + (joined_texts(items.deep_view().take(i as int)) + ", "@
                    + items@[i as int].text@));
            } else {
                assert(text@ =~= "snafu("@ + items@[0].text@);
            }
        }
        i = i + 1;
    }
    assert(items.deep_view().take(items.len() as int) =~= items.deep_view());
    text.append(")");
    Annotation { family: Some("snafu".to_owned()), list: ArgumentList::Items(items), text, span }
}

/// What one `suzu` annotation holds.
#[derive(Debug, PartialEq, Eq)]
pub struct SingleAttrResult {
    /// The annotation that forwards the other directives, where there are any.
    pub snafu_passthrough: Option<Annotation>,
    /// The word with which the originates-from role directive was written,
    /// where it was found.
    pub from_word: Option<String>,
    /// Whether the location role directive was found.
    pub has_location: bool,
}

/// What a `SingleAttrResult` holds, as the contracts see it.
pub struct SingleAttrResultView {
    pub snafu_passthrough: Option<AnnotationView>,
    pub from_word: Option<Seq<char>>,
    pub has_location: bool,
}

impl DeepView for SingleAttrResult {
    type V = SingleAttrResultView;

    open spec fn deep_view(&self) -> SingleAttrResultView {
        SingleAttrResultView {
            snafu_passthrough: self.snafu_passthrough.deep_view(),
            from_word: self.from_word.deep_view(),
            has_location: self.has_location,
        }
    }
}

/// What a list of directives at `level` comes to. The first role directive
/// off a field is an error at that directive, which names the word that is
/// written. Originates-from beside a forwarded `source` directive is an
/// error at the annotation, which names the word with which originates-from
/// is written first. Else the roles that were asked for, and the annotation
/// that forwards the rest.
pub open spec fn split_directives(items: Seq<DirectiveView>, level: Level, span: u64) -> Result<
    SingleAttrResultView,
    DiagnosticView,
> {
    if items.len() == 0 {
        Err(plain_diagnostic(DiagnosticKind::MissingArguments, span))
    } else if level != Level::Field && first_misplaced_role(items) is Some {
        Err(first_misplaced_role(items).unwrap())
    } else if first_from_word(items) is Some && last_headed(passthrough_of(items), "source"@)
        is Some {
        Err(
            DiagnosticView {
                kind: DiagnosticKind::FromWithSource,
                span,
                detail: first_from_word(items).unwrap(),
            },
        )
    } else {
        Ok(
            SingleAttrResultView {
                snafu_passthrough: if passthrough_of(items).len() == 0 {
                    None
                } else {
                    Some(snafu_annotation_view(passthrough_of(items), span))
                },
                from_word: first_from_word(items),
                has_location: any_location(items),
            },
        )
    }
}

/// What one `suzu` annotation at `level` comes to. One without an argument
/// list, or with an empty one, is an error; so is one whose list cannot be read.
pub open spec fn process_single_suzu_attr_spec(a: AnnotationView, level: Level) -> Result<
    SingleAttrResultView,
    DiagnosticView,
> {
    match a.list {
        ArgumentListView::Absent => Err(plain_diagnostic(DiagnosticKind::MissingArguments, a.span)),
        ArgumentListView::Malformed(why) => Err(
            DiagnosticView { kind: DiagnosticKind::Syntax, span: a.span, detail: why },
        ),
        ArgumentListView::Items(items) => split_directives(items, level, a.span),
    }
}

/// The leading identifier of a directive that has one.
fn word_of(d: &Directive) -> (word: String)
    requires
        d.deep_view().head is Some,
    ensures
        Some(word@) == d.deep_view().head,
{
    match &d.head {
        Some(head) => head.clone(),
        None => String::new(),
    }
}

/// Splits one `suzu` annotation into its role directives and the rest.
pub fn process_single_suzu_attr(attr: &Annotation, level: Level) -> (r: Result<
    SingleAttrResult,
    DefinitionError,
>)
    ensures
        match process_single_suzu_attr_spec(attr.deep_view(), level) {
            Ok(single) => r matches Ok(s) && s.deep_view() == single,
            Err(d) => r matches Err(e) && e.deep_view() == seq![d],
        },
{
    let items = match &attr.list {
        ArgumentList::Absent => {
            return Err(DefinitionError::new(DiagnosticKind::MissingArguments, attr.span));
        },
        ArgumentList::Malformed(why) => {
            return Err(DefinitionError::syntax(why.clone(), attr.span));
        },
        ArgumentList::Items(items) => items,
    };
    if items.len() == 0 {
        return Err(DefinitionError::new(DiagnosticKind::MissingArguments, attr.span));
    }
    let ghost all = items.deep_view();
    let mut from_word: Option<String> = None;
    let mut has_location = false;
    let mut passthrough: Vec<Directive> = Vec::new();
    let mut has_source_in_passthrough = false;
    let mut i: usize = 0;
    while i < items.len()
        invariant
            i <= items.len(),
            all == items.deep_view(),
            all.len() > 0,
            attr.deep_view().list == ArgumentListView::Items(all),
            from_word.deep_view() == first_from_word(all.take(i as int)),
            has_location == any_location(all.take(i as int)),
            passthrough.deep_view() == passthrough_of(all.take(i as int)),
            has_source_in_passthrough == (last_headed(passthrough.deep_view(), "source"@) is Some),
            level != Level::Field ==> first_misplaced_role(all.take(i as int)) is None,
        decreases items.len() - i,
    {
        let d = &items[i];
        proof {
            assert(all.take(i + 1).drop_last() =~= all.take(i as int));
            lemma_roles_differ(d.deep_view());
        }
        let is_from = meta_is_ident(d, "from") || meta_is_ident(d, "translate");
        let is_location = meta_is_ident(d, "location");
        if is_from {
            match level {
                Level::Field => {
                    if from_word.is_none() {
                        from_word = Some(word_of(d));
                    }
                },
                _ => {
                    proof {
                        lemma_first_misplaced_role_stays(all, i + 1);
                    }
                    return Err(
                        DefinitionError::detailed(
                            DiagnosticKind::FromNotOnField,
                            word_of(d),
                            d.span,
                        ),
                    );
                },
            }
        } else if is_location {
            match level {
                Level::Field => {
                    has_location = true;
                },
                _ => {
                    proof {
                        lemma_first_misplaced_role_stays(all, i + 1);
                    }
                    return Err(DefinitionError::new(DiagnosticKind::LocationNotOnField, d.span));
                },
            }
        } else {
            if meta_is_ident_prefix(d, "source") {
                has_source_in_passthrough = true;
            }
            let ghost before = passthrough@;
            let copy = d.clone();
            passthrough.push(copy);
            proof {
                assert(passthrough.deep_view().drop_last() =~= deep(before));
            }
        }
        i = i + 1;
    }
    assert(all.take(items.len() as int) =~= all);
    if has_source_in_passthrough {
        match &from_word {
            Some(word) => {
                return Err(
                    DefinitionError::detailed(
                        DiagnosticKind::FromWithSource,
                        word.clone(),
                        attr.span,
                    ),
                );
            },
            None => {},
        }
    }
    let snafu_passthrough = if passthrough.len() == 0 {
        None
    } else {
        Some(snafu_annotation(passthrough, attr.span))
    };
    Ok(SingleAttrResult { snafu_passthrough, from_word, has_location })
}

/// Whether a `snafu` annotation of the list holds a `source` directive, whatever its form.
pub open spec fn has_snafu_source_spec(attrs: Seq<AnnotationView>) -> bool {
    last_headed(snafu_directives_spec(attrs), "source"@) is Some
}

/// Whether a `snafu` annotation of the list holds a `source` directive, whatever its form.
pub fn has_snafu_source(attrs: &Vec<Annotation>) -> (r: bool)
    ensures
        r == has_snafu_source_spec(attrs.deep_view()),
{
    let items = snafu_directives(attrs);
    find_last_headed(&items, "source").is_some()
}

/// Whether a `snafu` annotation of the list holds the bare word `implicit`.
pub open spec fn has_snafu_implicit_spec(attrs: Seq<AnnotationView>) -> bool {
    any_word(snafu_directives_spec(attrs), "implicit"@)
}

/// Whether a `snafu` annotation of the list holds the bare word `implicit`.
pub fn has_snafu_implicit(attrs: &Vec<Annotation>) -> (r: bool)
    ensures
        r == has_snafu_implicit_spec(attrs.deep_view()),
{
    let items = snafu_directives(attrs);
    let ghost all = items.deep_view();
    let mut found = false;
    let mut i: usize = 0;
    while i < items.len()
        invariant
            i <= items.len(),
            all == items.deep_view(),
            found == any_word(all.take(i as int), "implicit"@),
        decreases items.len() - i,
    {
        proof {
            assert(all.take(i + 1).drop_last() =~= all.take(i as int));
        }
        if meta_is_ident(items[i], "implicit") {
            found = true;
        }
        i = i + 1;
    }
    assert(all.take(items.len() as int) =~= all);
    found
}

/// The annotations of a field with the location role: `snafu(implicit)` is
/// added after them unless they hold it already.
pub open spec fn apply_location_spec(attrs: Seq<AnnotationView>, span: u64) -> Seq<AnnotationView> {
    if has_snafu_implicit_spec(attrs) {
        attrs
    } else {
        attrs.push(implicit_annotation_view(span))
    }
}

/// Gives the annotations of a field what the location role asks for.
pub fn apply_location(attrs: &mut Vec<Annotation>, span: u64)
    ensures
        final(attrs).deep_view() == apply_location_spec(old(attrs).deep_view(), span),
{
    if !has_snafu_implicit(attrs) {
        let added = implicit_annotation(span);
        attrs.push(added);
    }
}

/// The type that a non-error adapter wraps, where `ty` is one: a path that
/// ends in `DisplayError` with one type between angle brackets.
pub open spec fn display_error_inner(ty: TypeView) -> Option<GenericArgView> {
    match ty.shape {
        TypeShapeView::Path(Some(last)) => match last.arguments {
            PathArgumentsView::AngleBracketed { args, span } => if last.ident == "DisplayError"@
                && args.len() == 1 && args[0].kind != ArgKind::Other {
                Some(args[0])
            } else {
                None
            },
            _ => None,
        },
        _ => None,
    }
}

/// The type that a non-error adapter wraps, where `ty` is one.
pub fn extract_display_error_inner(ty: &TypeDescriptor) -> (r: Option<&GenericArg>)
    ensures
        r.deep_view() == display_error_inner(ty.deep_view()),
{
    match &ty.shape {
        TypeShape::Path(Some(last)) => match &last.arguments {
            PathArguments::AngleBracketed { args, span } => {
                if str_eq(last.ident.as_str(), "DisplayError") && args.len() == 1 {
                    match args[0].kind {
                        ArgKind::Other => None,
                        _ => Some(&args[0]),
                    }
                } else {
                    None
                }
            },
            _ => None,
        },
        _ => None,
    }
}

/// `ty` wrapped in the non-error adapter of the crate at `crate_path`.
pub open spec fn wrapped_type(ty: TypeView, crate_path: Seq<char>) -> TypeView {
    TypeView {
        text: crate_path + "::DisplayError<"@ + ty.text + ">"@,
        shape: TypeShapeView::Path(
            Some(
                PathSegmentView {
                    ident: "DisplayError"@,
                    ident_span: ty.span,
                    arguments: PathArgumentsView::AngleBracketed {
                        args: seq![
                            GenericArgView {
                                kind: if ty.shape is Unit {
                                    ArgKind::Unit
                                } else {
                                    ArgKind::Type
                                },
                                text: ty.text,
                                span: ty.span,
                            },
                        ],
                        span: ty.span,
                    },
                    span: ty.span,
                },
            ),
        ),
        span: ty.span,
    }
}

/// The arguments of the `source` directive that converts from `original`
/// with the adapter's constructor.
pub open spec fn source_from_args(original: Seq<char>, crate_path: Seq<char>) -> Seq<char> {
    "from("@ + original + ", "@ + crate_path + "::DisplayError::new)"@
}

/// The annotation `snafu(source(from(original, adapter constructor)))`.
pub open spec fn source_from_annotation_view(
    original: Seq<char>,
    crate_path: Seq<char>,
    span: u64,
) -> AnnotationView {
    snafu_annotation_view(
        seq![
            DirectiveView {
                head: Some("source"@),
                form: MetaForm::List,
                args: source_from_args(original, crate_path),
                text: "source("@ + source_from_args(original, crate_path) + ")"@,
                span,
            },
        ],
        span,
    )
}

fn source_from_annotation(original: &str, crate_path: &str, span: u64) -> (a: Annotation)
    ensures
        a.deep_view() == source_from_annotation_view(original@, crate_path@, span),
{
    let mut args = "from(".to_owned();
    args.append(original);
    args.append(", ");
    args.append(crate_path);
    args.append("::DisplayError::new)");
    let mut text = "source(".to_owned();
    text.append(args.as_str());
    text.append(")");
    let mut items: Vec<Directive> = Vec::new();
    items.push(
        Directive { head: Some("source".to_owned()), form: MetaForm::List, args, text, span },
    );
    assert(items.deep_view() =~= seq![
        DirectiveView {
            head: Some("source"@),
            form: MetaForm::List,
            args: source_from_args(original@, crate_path@),
            text: "source("@ + source_from_args(original@, crate_path@) + ")"@,
            span,
        },
    ]);
    snafu_annotation(items, span)
}

/// What the originates-from role, written as `word`, asks of a field of type
/// `ty` whose other annotations are `existing`: an error that names `word`
/// where they hold a `source` directive; else the field's type wrapped in the
/// non-error adapter (kept, where it is wrapped already) and the `source`
/// annotation that converts into it.
pub open spec fn apply_translate_spec(
    ty: TypeView,
    existing: Seq<AnnotationView>,
    crate_path: Seq<char>,
    span: u64,
    word: Seq<char>,
) -> Result<(TypeView, AnnotationView), DiagnosticView> {
    if has_snafu_source_spec(existing) {
        Err(DiagnosticView { kind: DiagnosticKind::FromWithExistingSource, span, detail: word })
    } else {
        match display_error_inner(ty) {
            Some(inner) => Ok((ty, source_from_annotation_view(inner.text, crate_path, span))),
            None => Ok(
                (wrapped_type(ty, crate_path), source_from_annotation_view(ty.text, crate_path, span)),
            ),
        }
    }
}

/// A field that was given what the originates-from role asks for carries
/// the cause: the `source` annotation that it got is its last `source`
/// directive, and it does not say `false`.
pub proof fn lemma_from_field_is_source(
    ty: TypeView,
    existing: Seq<AnnotationView>,
    crate_path: Seq<char>,
    span: u64,
    word: Seq<char>,
    field: FieldView,
)
    requires
        apply_translate_spec(ty, existing, crate_path, span, word) matches Ok(pair) && field.attrs
            == existing.push(pair.1),
    ensures
        is_source_field_spec(field),
{
    let added = apply_translate_spec(ty, existing, crate_path, span, word)->Ok_0.1;
    let original = match display_error_inner(ty) {
        Some(inner) => inner.text,
        None => ty.text,
    };
    let d = DirectiveView {
        head: Some("source"@),
        form: MetaForm::List,
        args: source_from_args(original, crate_path),
        text: "source("@ + source_from_args(original, crate_path) + ")"@,
        span,
    };
    assert(added == snafu_annotation_view(seq![d], span));
    assert(field.attrs.drop_last() =~= existing);
    assert(snafu_group(added) == seq![d]);
    let items = snafu_directives_spec(field.attrs);
    assert(items == snafu_directives_spec(existing) + seq![d]);
    assert(items.last() == d);
    assert(last_headed(items, "source"@) == Some(d));
    reveal_strlit("from(");
    reveal_strlit("false");
    assert(d.args[1] == 'r');
    assert("false"@[1] == 'a');
}

/// Gives a field what the originates-from role, written as `word`, asks for.
/// The type is handed back and the field is not touched, so on an error the
/// field is as it was.
pub fn apply_translate(
    ty: &TypeDescriptor,
    existing_attrs: &Vec<Annotation>,
    crate_path: &str,
    span: u64,
    word: &str,
) -> (r: Result<(TypeDescriptor, Annotation), DefinitionError>)
    ensures
        match apply_translate_spec(
            ty.deep_view(),
            existing_attrs.deep_view(),
            crate_path@,
            span,
            word@,
        ) {
            Ok((new_ty, added)) => r matches Ok(pair) && pair.0.deep_view() == new_ty
                && pair.1.deep_view() == added,
            Err(d) => r matches Err(e) && e.deep_view() == seq![d],
        },
{
    if has_snafu_source(existing_attrs) {
        return Err(
            DefinitionError::detailed(
                DiagnosticKind::FromWithExistingSource,
                word.to_owned(),
                span,
            ),
        );
    }
    match extract_display_error_inner(ty) {
        Some(inner) => Ok(
            (ty.clone(), source_from_annotation(inner.text.as_str(), crate_path, span)),
        ),
        None => {
            let mut text = crate_path.to_owned();
            text.append("::DisplayError<");
            text.append(ty.text.as_str());
            text.append(">");
            let kind = match &ty.shape {
                TypeShape::Unit => ArgKind::Unit,
                _ => ArgKind::Type,
            };
            let mut args: Vec<GenericArg> = Vec::new();
            args.push(GenericArg { kind, text: ty.text.clone(), span: ty.span });
            assert(args.deep_view() =~= seq![
                GenericArgView { kind, text: ty.text@, span: ty.span },
            ]);
            let wrapped = TypeDescriptor {
                text,
                shape: TypeShape::Path(
                    Some(
                        PathSegment {
                            ident: "DisplayError".to_owned(),
                            ident_span: ty.span,
                            arguments: PathArguments::AngleBracketed { args, span: ty.span },
                            span: ty.span,
                        },
                    ),
                ),
                span: ty.span,
            };
            Ok((wrapped, source_from_annotation(ty.text.as_str(), crate_path, span)))
        },
    }
}

/// What the annotations of one place come to.
pub struct AttrFold {
    /// The annotations that stay: the others as they are, and for each `suzu`
    /// annotation the `snafu` annotation that forwards its other directives.
    pub attrs: Seq<AnnotationView>,
    /// The errors of the `suzu` annotations, in order.
    pub errors: Seq<DiagnosticView>,
    /// The word with which the first originates-from role directive is written.
    pub from_word: Option<Seq<char>>,
    pub has_location: bool,
}

/// Rewrites the annotations of one place, one after the other.
pub open spec fn fold_attrs(attrs: Seq<AnnotationView>, level: Level) -> AttrFold
    decreases attrs.len(),
{
    if attrs.len() == 0 {
        AttrFold { attrs: Seq::empty(), errors: Seq::empty(), from_word: None, has_location: false }
    } else {
        let prev = fold_attrs(attrs.drop_last(), level);
        let a = attrs.last();
        if a.family != Some("suzu"@) {
            AttrFold { attrs: prev.attrs.push(a), ..prev }
        } else {
            match process_single_suzu_attr_spec(a, level) {
                Ok(single) => AttrFold {
                    attrs: match single.snafu_passthrough {
                        Some(forwarded) => prev.attrs.push(forwarded),
                        None => prev.attrs,
                    },
                    errors: prev.errors,
                    from_word: if prev.from_word is Some {
                        prev.from_word
                    } else {
                        single.from_word
                    },
                    has_location: prev.has_location || single.has_location,
                },
                Err(d) => AttrFold { errors: prev.errors.push(d), ..prev },
            }
        }
    }
}

/// No `suzu` annotation is left among the rewritten annotations of a place.
pub proof fn lemma_no_suzu_remains(attrs: Seq<AnnotationView>, level: Level)
    ensures
        forall|k: int|
            0 <= k < fold_attrs(attrs, level).attrs.len() ==> (#[trigger] fold_attrs(
                attrs,
                level,
            ).attrs[k]).family != Some("suzu"@),
    decreases attrs.len(),
{
    if attrs.len() > 0 {
        lemma_no_suzu_remains(attrs.drop_last(), level);
        reveal_strlit("suzu");
        reveal_strlit("snafu");
        assert("suzu"@.len() != "snafu"@.len());
    }
}

/// The diagnostics of a list of errors that hold one diagnostic each.
proof fn lemma_all_diagnostics_push(errors: Seq<Seq<DiagnosticView>>, d: DiagnosticView)
    ensures
        all_diagnostics(errors.push(seq![d]))
            == all_diagnostics(errors).push(d),
{
    assert(errors.push(seq![d]).drop_last() =~= errors);
}

/// The rewritten annotations of one place, as executable code holds them.
struct Rewritten {
    attrs: Vec<Annotation>,
    errors: Vec<DefinitionError>,
    from_word: Option<String>,
    has_location: bool,
}

impl Rewritten {
    spec fn agrees(&self, fold: AttrFold) -> bool {
        &&& self.attrs.deep_view() == fold.attrs
        &&& all_diagnostics(self.errors.deep_view()) == fold.errors
        &&& self.errors.len() == fold.errors.len()
        &&& self.from_word.deep_view() == fold.from_word
        &&& self.has_location == fold.has_location
    }
}

fn rewrite_attrs(attrs: &Vec<Annotation>, level: Level) -> (r: Rewritten)
    ensures
        r.agrees(fold_attrs(attrs.deep_view(), level)),
{
    let ghost all = attrs.deep_view();
    let mut r = Rewritten {
        attrs: Vec::new(),
        errors: Vec::new(),
        from_word: None,
        has_location: false,
    };
    let mut i: usize = 0;
    assert(r.attrs.deep_view() =~= Seq::empty());
    while i < attrs.len()
        invariant
            i <= attrs.len(),
            all == attrs.deep_view(),
            r.agrees(fold_attrs(all.take(i as int), level)),
        decreases attrs.len() - i,
    {
        let a = &attrs[i];
        proof {
            assert(all.take(i + 1).drop_last() =~= all.take(i as int));
        }
        let ghost attrs_before = r.attrs@;
        let ghost errors_before = r.errors@;
        if !family_is(a, "suzu") {
            let copy = a.clone();
            r.attrs.push(copy);
            proof {
                lemma_deep_push(attrs_before, copy);
            }
        } else {
            match process_single_suzu_attr(a, level) {
                Ok(single) => {
                    if r.from_word.is_none() {
                        r.from_word = single.from_word;
                    }
                    if single.has_location {
                        r.has_location = true;
                    }
                    match single.snafu_passthrough {
                        Some(forwarded) => {
                            r.attrs.push(forwarded);
                            proof {
                                lemma_deep_push(attrs_before, forwarded);
                            }
                        },
                        None => {},
                    }
                },
                Err(e) => {
                    r.errors.push(e);
                    proof {
                        lemma_deep_push(errors_before, e);
                        lemma_all_diagnostics_push(deep(errors_before), e.deep_view()[0]);
                    }
                },
            }
        }
        i = i + 1;
    }
    assert(all.take(attrs.len() as int) =~= all);
    r
}

/// The annotations of a type or a case: the rewritten ones where no `suzu`
/// annotation is in error, else all their errors.
pub open spec fn process_level_attrs_spec(attrs: Seq<AnnotationView>, level: Level) -> Result<
    Seq<AnnotationView>,
    Seq<DiagnosticView>,
> {
    let fold = fold_attrs(attrs, level);
    if fold.errors.len() == 0 {
        Ok(fold.attrs)
    } else {
        Err(fold.errors)
    }
}

fn process_level_attrs(attrs: &Vec<Annotation>, level: Level) -> (r: Result<
    Vec<Annotation>,
    DefinitionError,
>)
    ensures
        match process_level_attrs_spec(attrs.deep_view(), level) {
            Ok(kept) => r matches Ok(new_attrs) && new_attrs.deep_view() == kept,
            Err(errors) => r matches Err(e) && e.deep_view() == errors,
        },
{
    let rewritten = rewrite_attrs(attrs, level);
    match combine_errors(rewritten.errors) {
        Ok(()) => Ok(rewritten.attrs),
        Err(e) => Err(e),
    }
}

/// Rewrites the annotations of a type. Role directives are errors there.
pub fn process_type_level_attrs(attrs: &Vec<Annotation>) -> (r: Result<
    Vec<Annotation>,
    DefinitionError,
>)
    ensures
        match process_level_attrs_spec(attrs.deep_view(), Level::Type) {
            Ok(kept) => r matches Ok(new_attrs) && new_attrs.deep_view() == kept,
            Err(errors) => r matches Err(e) && e.deep_view() == errors,
        },
{
    process_level_attrs(attrs, Level::Type)
}

/// Rewrites the annotations of a case. Role directives are errors there.
pub fn process_variant_level_attrs(attrs: &Vec<Annotation>) -> (r: Result<
    Vec<Annotation>,
    DefinitionError,
>)
    ensures
        match process_level_attrs_spec(attrs.deep_view(), Level::Variant) {
            Ok(kept) => r matches Ok(new_attrs) && new_attrs.deep_view() == kept,
            Err(errors) => r matches Err(e) && e.deep_view() == errors,
        },
{
    process_level_attrs(attrs, Level::Variant)
}

/// What one field comes to.
pub struct FieldRewrite {
    pub field: FieldView,
    pub errors: Seq<DiagnosticView>,
    /// Whether the field was marked with the location role directive.
    pub marked: bool,
}

/// Rewrites one field: its annotations first; then the roles they asked for.
/// Both roles on one field are an error, and neither is then applied. What is
/// said of the originates-from role names the word with which it is written
/// first among the annotations of the field.
pub open spec fn rewrite_field(f: FieldView, crate_path: Seq<char>) -> FieldRewrite {
    let fold = fold_attrs(f.attrs, Level::Field);
    if fold.from_word is Some && fold.has_location {
        FieldRewrite {
            field: FieldView { attrs: fold.attrs, ..f },
            errors: fold.errors.push(
                DiagnosticView {
                    kind: DiagnosticKind::FromWithLocation,
                    span: f.span,
                    detail: fold.from_word.unwrap(),
                },
            ),
            marked: false,
        }
    } else if fold.from_word is Some {
        match apply_translate_spec(f.ty, fold.attrs, crate_path, f.span, fold.from_word.unwrap()) {
            Ok((ty, added)) => FieldRewrite {
                field: FieldView { ty, attrs: fold.attrs.push(added), ..f },
                errors: fold.errors,
                marked: false,
            },
            Err(d) => FieldRewrite {
                field: FieldView { attrs: fold.attrs, ..f },
                errors: fold.errors.push(d),
                marked: false,
            },
        }
    } else if fold.has_location {
        FieldRewrite {
            field: FieldView {
                attrs: apply_location_spec(fold.attrs, f.span),
                location_role: true,
                ..f
            },
            errors: fold.errors,
            marked: true,
        }
    } else {
        FieldRewrite { field: FieldView { attrs: fold.attrs, ..f }, errors: fold.errors, marked: false }
    }
}

/// What the fields of one unit come to.
pub struct FieldsFold {
    pub fields: Seq<FieldView>,
    pub errors: Seq<DiagnosticView>,
    pub marked: bool,
}

/// Rewrites the fields of one unit, one after the other.
pub open spec fn fold_fields(fields: Seq<FieldView>, crate_path: Seq<char>) -> FieldsFold
    decreases fields.len(),
{
    if fields.len() == 0 {
        FieldsFold { fields: Seq::empty(), errors: Seq::empty(), marked: false }
    } else {
        let prev = fold_fields(fields.drop_last(), crate_path);
        let one = rewrite_field(fields.last(), crate_path);
        FieldsFold {
            fields: prev.fields.push(one.field),
            errors: prev.errors + one.errors,
            marked: prev.marked || one.marked,
        }
    }
}

/// The fields of one unit after rewriting, and whether one of them was marked
/// with the location role directive; all the errors where there are any.
pub open spec fn process_fields_spec(fields: Seq<FieldView>, crate_path: Seq<char>) -> Result<
    (Seq<FieldView>, bool),
    Seq<DiagnosticView>,
> {
    let fold = fold_fields(fields, crate_path);
    if fold.errors.len() == 0 {
        Ok((fold.fields, fold.marked))
    } else {
        Err(fold.errors)
    }
}

proof fn lemma_all_diagnostics_add(a: Seq<Seq<DiagnosticView>>, b: Seq<Seq<DiagnosticView>>)
    ensures
        all_diagnostics(a + b) == all_diagnostics(a)
            + all_diagnostics(b),
    decreases b.len(),
{
    if b.len() > 0 {
        assert((a + b).drop_last() =~= a + b.drop_last());
        lemma_all_diagnostics_add(a, b.drop_last());
    }
}

/// Rewrites the fields of one unit.
pub fn process_fields(fields: &Vec<FieldDescriptor>, crate_path: &str) -> (r: Result<
    (Vec<FieldDescriptor>, bool),
    DefinitionError,
>)
    ensures
        match process_fields_spec(fields.deep_view(), crate_path@) {
            Ok((new_fields, marked)) => r matches Ok(pair) && pair.0.deep_view() == new_fields
                && pair.1 == marked,
            Err(errors) => r matches Err(e) && e.deep_view() == errors,
        },
{
    let ghost all = fields.deep_view();
    let mut has_explicit_location = false;
    let mut errors: Vec<DefinitionError> = Vec::new();
    let mut new_fields: Vec<FieldDescriptor> = Vec::new();
    let mut i: usize = 0;
    while i < fields.len()
        invariant
            i <= fields.len(),
            all == fields.deep_view(),
            new_fields.deep_view() == fold_fields(all.take(i as int), crate_path@).fields,
            all_diagnostics(errors.deep_view()) == fold_fields(
                all.take(i as int),
                crate_path@,
            ).errors,
            errors.len() == 0 <==> fold_fields(all.take(i as int), crate_path@).errors.len() == 0,
            has_explicit_location == fold_fields(all.take(i as int), crate_path@).marked,
        decreases fields.len() - i,
    {
        let field = &fields[i];
        proof {
            assert(all.take(i + 1).drop_last() =~= all.take(i as int));
        }
        let ghost errors_before = errors@;
        let rewritten = rewrite_attrs(&field.attrs, Level::Field);
        let mut new_attrs = rewritten.attrs;
        let mut field_errors = rewritten.errors;
        let mut ty = field.ty.clone();
        let mut location_role = field.location_role;
        let ghost attr_errors = field_errors@;
        let from_word = rewritten.from_word;
        if from_word.is_some() && rewritten.has_location {
            let e = DefinitionError::detailed(
                DiagnosticKind::FromWithLocation,
                from_word.unwrap(),
                field.span,
            );
            field_errors.push(e);
            proof {
                lemma_deep_push(attr_errors, e);
                lemma_all_diagnostics_push(deep(attr_errors), e.deep_view()[0]);
            }
        } else if from_word.is_some() {
            let word = from_word.unwrap();
            match apply_translate(&field.ty, &new_attrs, crate_path, field.span, word.as_str()) {
                Ok(pair) => {
                    let ghost attrs_before = new_attrs@;
                    ty = pair.0;
                    new_attrs.push(pair.1);
                    proof {
                        lemma_deep_push(attrs_before, pair.1);
                    }
                },
                Err(e) => {
                    field_errors.push(e);
                    proof {
                        lemma_deep_push(attr_errors, e);
                        lemma_all_diagnostics_push(deep(attr_errors), e.deep_view()[0]);
                    }
                },
            }
        } else if rewritten.has_location {
            apply_location(&mut new_attrs, field.span);
            location_role = true;
            has_explicit_location = true;
        }
        let new_field = FieldDescriptor {
            name: field.name.clone(),
            ty,
            attrs: new_attrs,
            location_role,
            span: field.span,
        };
        new_fields.push(new_field);
        let ghost moved = field_errors@;
        errors.append(&mut field_errors);
        proof {
            lemma_deep_add(errors_before, moved);
            lemma_all_diagnostics_add(deep(errors_before), deep(moved));
        }
        i = i + 1;
    }
    assert(all.take(fields.len() as int) =~= all);
    match combine_errors(errors) {
        Ok(()) => Ok((new_fields, has_explicit_location)),
        Err(e) => Err(e),
    }
}

/// For each unit of a definition, whether one of its fields was marked with
/// the location role directive: one entry for a record, one per case otherwise.
#[derive(Debug, PartialEq, Eq)]
pub struct SuzuResult {
    pub has_explicit_location: Vec<bool>,
}

/// The fields of a unit after rewriting, and whether one was marked. Only
/// named fields carry annotations that are read.
pub open spec fn rewrite_unit_fields(fields: FieldsView, crate_path: Seq<char>) -> Result<
    (FieldsView, bool),
    Seq<DiagnosticView>,
> {
    match fields {
        FieldsView::Named(named) => match process_fields_spec(named, crate_path) {
            Ok((new_fields, marked)) => Ok((FieldsView::Named(new_fields), marked)),
            Err(errors) => Err(errors),
        },
        other => Ok((other, false)),
    }
}

fn process_unit_fields(fields: &Fields, crate_path: &str) -> (r: Result<
    (Fields, bool),
    DefinitionError,
>)
    ensures
        match rewrite_unit_fields(fields.deep_view(), crate_path@) {
            Ok((new_fields, marked)) => r matches Ok(pair) && pair.0.deep_view() == new_fields
                && pair.1 == marked,
            Err(errors) => r matches Err(e) && e.deep_view() == errors,
        },
{
    match fields {
        Fields::Named(named) => match process_fields(named, crate_path) {
            Ok(pair) => Ok((Fields::Named(pair.0), pair.1)),
            Err(e) => Err(e),
        },
        Fields::Unnamed => Ok((Fields::Unnamed, false)),
        Fields::Unit => Ok((Fields::Unit, false)),
    }
}

/// One case after rewriting: its own annotations first, then its fields.
pub open spec fn rewrite_variant(v: VariantView, crate_path: Seq<char>) -> Result<
    (VariantView, bool),
    Seq<DiagnosticView>,
> {
    match process_level_attrs_spec(v.attrs, Level::Variant) {
        Ok(attrs) => match rewrite_unit_fields(v.fields, crate_path) {
            Ok((fields, marked)) => Ok((VariantView { attrs, fields, ..v }, marked)),
            Err(errors) => Err(errors),
        },
        Err(errors) => Err(errors),
    }
}

/// The cases of a type after rewriting, in order; the errors of the first
/// case that has any.
pub open spec fn rewrite_variants(variants: Seq<VariantView>, crate_path: Seq<char>) -> Result<
    (Seq<VariantView>, Seq<bool>),
    Seq<DiagnosticView>,
>
    decreases variants.len(),
{
    if variants.len() == 0 {
        Ok((Seq::empty(), Seq::empty()))
    } else {
        match rewrite_variants(variants.drop_last(), crate_path) {
            Ok((done, flags)) => match rewrite_variant(variants.last(), crate_path) {
                Ok((v, marked)) => Ok((done.push(v), flags.push(marked))),
                Err(errors) => Err(errors),
            },
            Err(errors) => Err(errors),
        }
    }
}

/// The errors among the first `n` cases are the errors of all the cases.
pub proof fn lemma_variant_errors_stay(variants: Seq<VariantView>, crate_path: Seq<char>, n: int)
    requires
        0 <= n <= variants.len(),
        rewrite_variants(variants.take(n), crate_path) is Err,
    ensures
        rewrite_variants(variants, crate_path) == rewrite_variants(variants.take(n), crate_path),
    decreases variants.len() - n,
{
    if n < variants.len() {
        assert(variants.take(n + 1).drop_last() =~= variants.take(n));
        lemma_variant_errors_stay(variants, crate_path, n + 1);
    } else {
        assert(variants.take(n) =~= variants);
    }
}

/// A definition after the rewriting of all its `suzu` annotations, with the
/// marks of its units. The annotations of the type come first, then the units
/// in order; the first place in error ends the pass with its errors. A union
/// has no units to rewrite.
pub open spec fn process_suzu_attrs_spec(item: SchemaItemView, crate_path: Seq<char>) -> Result<
    (SchemaItemView, Seq<bool>),
    Seq<DiagnosticView>,
> {
    match item.body {
        ItemBodyView::Union => Err(seq![plain_diagnostic(DiagnosticKind::SuzuOnUnion, item.span)]),
        ItemBodyView::Struct { fields, fields_span } => match process_level_attrs_spec(
            item.attrs,
            Level::Type,
        ) {
            Ok(attrs) => match rewrite_unit_fields(fields, crate_path) {
                Ok((new_fields, marked)) => Ok(
                    (
                        SchemaItemView {
                            attrs,
                            body: ItemBodyView::Struct { fields: new_fields, fields_span },
                            ..item
                        },
                        seq![marked],
                    ),
                ),
                Err(errors) => Err(errors),
            },
            Err(errors) => Err(errors),
        },
        ItemBodyView::Enum(variants) => match process_level_attrs_spec(item.attrs, Level::Type) {
            Ok(attrs) => match rewrite_variants(variants, crate_path) {
                Ok((new_variants, flags)) => Ok(
                    (SchemaItemView { attrs, body: ItemBodyView::Enum(new_variants), ..item }, flags),
                ),
                Err(errors) => Err(errors),
            },
            Err(errors) => Err(errors),
        },
    }
}

/// Rewrites all `suzu` annotations of a definition.
pub fn process_suzu_attrs(item: &SchemaItem, crate_path: &str) -> (r: Result<
    (SchemaItem, SuzuResult),
    DefinitionError,
>)
    ensures
        match process_suzu_attrs_spec(item.deep_view(), crate_path@) {
            Ok((new_item, flags)) => r matches Ok(pair) && pair.0.deep_view() == new_item
                && pair.1.has_explicit_location@ == flags,
            Err(errors) => r matches Err(e) && e.deep_view() == errors,
        },
{
    match &item.body {
        ItemBody::Union => Err(DefinitionError::new(DiagnosticKind::SuzuOnUnion, item.span)),
        ItemBody::Struct { fields, fields_span } => {
            let attrs = match process_type_level_attrs(&item.attrs) {
                Ok(attrs) => attrs,
                Err(e) => {
                    return Err(e);
                },
            };
            let pair = match process_unit_fields(fields, crate_path) {
                Ok(pair) => pair,
                Err(e) => {
                    return Err(e);
                },
            };
            let mut has_explicit_location: Vec<bool> = Vec::new();
            has_explicit_location.push(pair.1);
            Ok(
                (
                    SchemaItem {
                        name: item.name.clone(),
                        name_span: item.name_span,
                        attrs,
                        generics: clone_generics(&item.generics),
                        body: ItemBody::Struct { fields: pair.0, fields_span: *fields_span },
                        span: item.span,
                    },
                    SuzuResult { has_explicit_location },
                ),
            )
        },
        ItemBody::Enum(variants) => {
            let attrs = match process_type_level_attrs(&item.attrs) {
                Ok(attrs) => attrs,
                Err(e) => {
                    return Err(e);
                },
            };
            let ghost all = variants.deep_view();
            let mut has_explicit_location: Vec<bool> = Vec::new();
            let mut new_variants: Vec<VariantDescriptor> = Vec::new();
            let mut i: usize = 0;
            assert(new_variants.deep_view() =~= Seq::empty());
            while i < variants.len()
                invariant
                    i <= variants.len(),
                    all == variants.deep_view(),
                    item.deep_view().body == ItemBodyView::Enum(all),
                    process_level_attrs_spec(item.deep_view().attrs, Level::Type) is Ok,
                    rewrite_variants(all.take(i as int), crate_path@) == Ok::<
                        (Seq<VariantView>, Seq<bool>),
                        Seq<DiagnosticView>,
                    >((new_variants.deep_view(), has_explicit_location@)),
                decreases variants.len() - i,
            {
                let v = &variants[i];
                proof {
                    assert(all.take(i + 1).drop_last() =~= all.take(i as int));
                }
                let ghost before = new_variants@;
                let v_attrs = match process_variant_level_attrs(&v.attrs) {
                    Ok(v_attrs) => v_attrs,
                    Err(e) => {
                        proof {
                            lemma_variant_errors_stay(all, crate_path@, i + 1);
                        }
                        return Err(e);
                    },
                };
                let pair = match process_unit_fields(&v.fields, crate_path) {
                    Ok(pair) => pair,
                    Err(e) => {
                        proof {
                            lemma_variant_errors_stay(all, crate_path@, i + 1);
                        }
                        return Err(e);
                    },
                };
                let new_v = VariantDescriptor {
                    name: v.name.clone(),
                    attrs: v_attrs,
                    fields: pair.0,
                    span: v.span,
                };
                new_variants.push(new_v);
                has_explicit_location.push(pair.1);
                proof {
                    lemma_deep_push(before, new_v);
                }
                i = i + 1;
            }
            assert(all.take(variants.len() as int) =~= all);
            Ok(
                (
                    SchemaItem {
                        name: item.name.clone(),
                        name_span: item.name_span,
                        attrs,
                        generics: clone_generics(&item.generics),
                        body: ItemBody::Enum(new_variants),
                        span: item.span,
                    },
                    SuzuResult { has_explicit_location },
                ),
            )
        },
    }
}

} // verus!
