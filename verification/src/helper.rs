//! The field roles of one schema unit: which field captures where the error
//! was constructed, and which field carries its cause.

use vstd::prelude::*;
use crate::diagnostic::{plain_diagnostic, DefinitionError, DiagnosticKind, DiagnosticView};
use crate::schema::{
    Annotation, AnnotationView, ArgumentList, ArgumentListView, Directive, DirectiveView,
    FieldDescriptor, FieldView, MetaForm, PathArguments, PathArgumentsView, PathSegment,
    PathSegmentView, ResolvedRoles, TypeDescriptor, TypeShape, TypeShapeView, TypeView,
};
use crate::suzu_attr::{any_location, is_location_role};
use crate::text::str_eq;
use crate::views::{lemma_deep_push, lemma_deep_vec};

verus! {

/// Whether a type is the location type: a path whose last segment is `Location`.
pub open spec fn is_location_type_spec(ty: TypeView) -> bool {
    match ty.shape {
        TypeShapeView::Path(Some(last)) => last.ident == "Location"@,
        _ => false,
    }
}

/// Whether a type is the location type: a path whose last segment is `Location`.
pub fn is_location_type(ty: &TypeDescriptor) -> (r: bool)
    ensures
        r == is_location_type_spec(ty.deep_view()),
{
    match &ty.shape {
        TypeShape::Path(Some(last)) => str_eq(last.ident.as_str(), "Location"),
        _ => false,
    }
}

/// The items of an annotation that belongs to the `snafu` family.
pub open spec fn snafu_group(a: AnnotationView) -> Seq<DirectiveView> {
    match a.list {
        ArgumentListView::Items(items) if a.family == Some("snafu"@) => items,
        _ => Seq::empty(),
    }
}

/// The items of all `snafu` annotations of a list, in the order in which they are written.
pub open spec fn snafu_directives_spec(attrs: Seq<AnnotationView>) -> Seq<DirectiveView>
    decreases attrs.len(),
{
    if attrs.len() == 0 {
        Seq::empty()
    } else {
        snafu_directives_spec(attrs.drop_last()) + snafu_group(attrs.last())
    }
}

/// The last item of `items` whose leading identifier is `name`.
pub open spec fn last_headed(items: Seq<DirectiveView>, name: Seq<char>) -> Option<DirectiveView>
    decreases items.len(),
{
    if items.len() == 0 {
        None
    } else if items.last().head == Some(name) {
        Some(items.last())
    } else {
        last_headed(items.drop_last(), name)
    }
}

/// Whether a field carries the cause: its last `source` directive decides
/// (`source(false)` says no), and without one its name does.
pub open spec fn is_source_field_spec(field: FieldView) -> bool {
    match last_headed(snafu_directives_spec(field.attrs), "source"@) {
        Some(d) => !(d.form == MetaForm::List && d.args == "false"@),
        None => field.name == "source"@,
    }
}

/// What a field is asked when a role is looked for.
#[derive(Clone, Copy, Debug, PartialEq, Eq, Structural)]
pub enum Probe {
    /// The field carries the location role.
    Marked,
    /// The field's declared type is the location type.
    Typed,
    /// The field is named `location`.
    Named,
    /// The field carries the cause.
    Source,
}

/// Whether `field` answers `probe`.
pub open spec fn answers(probe: Probe, field: FieldView) -> bool {
    match probe {
        Probe::Marked => field.location_role,
        Probe::Typed => is_location_type_spec(field.ty),
        Probe::Named => field.name == "location"@,
        Probe::Source => is_source_field_spec(field),
    }
}

/// Whether the leading identifier of `d` is `name`.
pub fn head_is(d: &Directive, name: &str) -> (r: bool)
    ensures
        r == (d.deep_view().head == Some(name@)),
{
    match &d.head {
        Some(head) => str_eq(head.as_str(), name),
        None => false,
    }
}

/// Whether the name of `a` is `name`.
pub fn family_is(a: &Annotation, name: &str) -> (r: bool)
    ensures
        r == (a.deep_view().family == Some(name@)),
{
    match &a.family {
        Some(family) => str_eq(family.as_str(), name),
        None => false,
    }
}

/// The items of all `snafu` annotations of a list, in the order in which they are written.
pub fn snafu_directives(attrs: &Vec<Annotation>) -> (items: Vec<&Directive>)
    ensures
        items.deep_view() == snafu_directives_spec(attrs.deep_view()),
{
    let mut items: Vec<&Directive> = Vec::new();
    let mut i: usize = 0;
    while i < attrs.len()
        invariant
            i <= attrs.len(),
            items.deep_view() == snafu_directives_spec(attrs.deep_view().take(i as int)),
        decreases attrs.len() - i,
    {
        let ghost before = items.deep_view();
        let a = &attrs[i];
        assert(attrs.deep_view().take(i + 1).drop_last() =~= attrs.deep_view().take(i as int));
        if family_is(a, "snafu") {
            match &a.list {
                ArgumentList::Items(group) => {
                    let mut j: usize = 0;
                    while j < group.len()
                        invariant
                            j <= group.len(),
                            items.deep_view() == before + group.deep_view().take(j as int),
                        decreases group.len() - j,
                    {
                        let ghost prev = items@;
                        items.push(&group[j]);
                        proof {
                            lemma_deep_vec(items);
                            lemma_deep_push(prev, &group@[j as int]);
                        }
                        j = j + 1;
                    }
                },
                _ => {},
            }
        }
        i = i + 1;
    }
    assert(attrs.deep_view().take(attrs.len() as int) =~= attrs.deep_view());
    items
}

/// The last of `items` whose leading identifier is `name`.
pub fn find_last_headed<'a>(items: &Vec<&'a Directive>, name: &str) -> (r: Option<&'a Directive>)
    ensures
        r.deep_view() == last_headed(items.deep_view(), name@),
{
    let mut i: usize = items.len();
    assert(items.deep_view().take(i as int) =~= items.deep_view());
    while i > 0
        invariant
            i <= items.len(),
            last_headed(items.deep_view(), name@) == last_headed(
                items.deep_view().take(i as int),
                name@,
            ),
        decreases i,
    {
        i = i - 1;
        let d: &'a Directive = items[i];
        proof {
            assert(items.deep_view().take(i + 1).drop_last() =~= items.deep_view().take(i as int));
        }
        if head_is(d, name) {
            return Some(d);
        }
    }
    None
}

/// Whether a field carries the cause.
pub fn is_source_field(field: &FieldDescriptor) -> (r: bool)
    ensures
        r == is_source_field_spec(field.deep_view()),
{
    let items = snafu_directives(&field.attrs);
    match find_last_headed(&items, "source") {
        Some(d) => {
            let disabled = match d.form {
                MetaForm::List => str_eq(d.args.as_str(), "false"),
                _ => false,
            };
            !disabled
        },
        None => str_eq(field.name.as_str(), "source"),
    }
}

/// The position of the first field at or after `from` that answers `probe`.
pub open spec fn first_from(fields: Seq<FieldView>, probe: Probe, from: int) -> Option<int>
    decreases fields.len() - from,
{
    if from < 0 || from >= fields.len() {
        None
    } else if answers(probe, fields[from]) {
        Some(from)
    } else {
        first_from(fields, probe, from + 1)
    }
}

/// What `first_from` finds is the least position that answers the probe.
pub proof fn lemma_first_from(fields: Seq<FieldView>, probe: Probe, from: int)
    requires
        0 <= from,
    ensures
        match first_from(fields, probe, from) {
            Some(i) => from <= i < fields.len() && answers(probe, fields[i]) && forall|k: int|
                from <= k < i ==> !answers(probe, #[trigger] fields[k]),
            None => forall|k: int| from <= k < fields.len() ==> !answers(probe, #[trigger] fields[k]),
        },
    decreases fields.len() - from,
{
    if from < fields.len() && !answers(probe, fields[from]) {
        lemma_first_from(fields, probe, from + 1);
    }
}

fn field_answers(probe: Probe, field: &FieldDescriptor) -> (r: bool)
    ensures
        r == answers(probe, field.deep_view()),
{
    match probe {
        Probe::Marked => field.location_role,
        Probe::Typed => is_location_type(&field.ty),
        Probe::Named => str_eq(field.name.as_str(), "location"),
        Probe::Source => is_source_field(field),
    }
}

/// The position of the first field at or after `from` that answers `probe`.
pub fn find_from(fields: &Vec<FieldDescriptor>, probe: Probe, from: usize) -> (r: Option<usize>)
    ensures
        match r {
            Some(i) => from <= i < fields.len() && first_from(
                fields.deep_view(),
                probe,
                from as int,
            ) == Some(i as int),
            None => first_from(fields.deep_view(), probe, from as int) is None,
        },
{
    let mut i: usize = from;
    while i < fields.len()
        invariant
            from <= i,
            first_from(fields.deep_view(), probe, from as int) == first_from(
                fields.deep_view(),
                probe,
                i as int,
            ),
        decreases fields.len() - i,
    {
        if field_answers(probe, &fields[i]) {
            return Some(i);
        }
        i = i + 1;
    }
    None
}

/// Whether a field named `location` exists.
pub open spec fn has_location_spec(fields: Seq<FieldView>) -> bool {
    exists|i: int| 0 <= i < fields.len() && (#[trigger] fields[i]).name == "location"@
}

/// Whether a field named `location` exists.
pub fn has_location(fields: &Vec<FieldDescriptor>) -> (r: bool)
    ensures
        r == has_location_spec(fields.deep_view()),
{
    proof {
        lemma_first_from(fields.deep_view(), Probe::Named, 0);
    }
    match find_from(fields, Probe::Named, 0) {
        Some(i) => {
            true
        },
        None => false,
    }
}

/// How the search for the location field of one unit ends.
pub enum LocationLookup {
    /// Exactly one field carries the location role.
    Marked(int),
    /// No field carries the role, and exactly one has the location type.
    Typed(int),
    /// No field carries the role, has the location type or is named `location`.
    Missing,
    /// The unit is rejected.
    Failed(DiagnosticView),
}

/// The search for the location field: the marked field; else the field of the
/// location type; else nothing, unless a field is named `location`. A second
/// candidate of the deciding sort is an error at that second field.
pub open spec fn lookup_location(fields: Seq<FieldView>) -> LocationLookup {
    match first_from(fields, Probe::Marked, 0) {
        Some(i) => match first_from(fields, Probe::Marked, i + 1) {
            Some(j) => LocationLookup::Failed(
                plain_diagnostic(DiagnosticKind::MultipleLocationMarkers, fields[j].span),
            ),
            None => LocationLookup::Marked(i),
        },
        None => match first_from(fields, Probe::Typed, 0) {
            Some(i) => match first_from(fields, Probe::Typed, i + 1) {
                Some(j) => LocationLookup::Failed(
                    plain_diagnostic(DiagnosticKind::AmbiguousLocationType, fields[j].span),
                ),
                None => LocationLookup::Typed(i),
            },
            None => match first_from(fields, Probe::Named, 0) {
                Some(i) => LocationLookup::Failed(
                    plain_diagnostic(DiagnosticKind::WrongLocationType, fields[i].span),
                ),
                None => LocationLookup::Missing,
            },
        },
    }
}

/// The outcome of a search, as executable code holds it.
enum Found {
    Marked(usize),
    Typed(usize),
    Missing,
    Failed(DefinitionError),
}

impl Found {
    spec fn agrees(&self, lookup: LocationLookup) -> bool {
        match self {
            Found::Marked(i) => lookup == LocationLookup::Marked(*i as int),
            Found::Typed(i) => lookup == LocationLookup::Typed(*i as int),
            Found::Missing => lookup == LocationLookup::Missing,
            Found::Failed(e) => lookup matches LocationLookup::Failed(d) && e.deep_view() == seq![d],
        }
    }
}

fn search_location(fields: &Vec<FieldDescriptor>) -> (found: Found)
    ensures
        found.agrees(lookup_location(fields.deep_view())),
{
    match find_from(fields, Probe::Marked, 0) {
        Some(i) => match find_from(fields, Probe::Marked, i + 1) {
            Some(j) => {
                Found::Failed(
                    DefinitionError::new(DiagnosticKind::MultipleLocationMarkers, fields[j].span),
                )
            },
            None => Found::Marked(i),
        },
        None => match find_from(fields, Probe::Typed, 0) {
            Some(i) => match find_from(fields, Probe::Typed, i + 1) {
                Some(j) => {
                    Found::Failed(
                        DefinitionError::new(DiagnosticKind::AmbiguousLocationType, fields[j].span),
                    )
                },
                None => Found::Typed(i),
            },
            None => match find_from(fields, Probe::Named, 0) {
                Some(i) => {
                    Found::Failed(
                        DefinitionError::new(DiagnosticKind::WrongLocationType, fields[i].span),
                    )
                },
                None => Found::Missing,
            },
        },
    }
}

/// The location field of a unit whose fields are final: the position that the
/// search gives, and an error at `span` where it gives none.
pub open spec fn find_location_field_spec(fields: Seq<FieldView>, span: u64) -> Result<
    int,
    DiagnosticView,
> {
    match lookup_location(fields) {
        LocationLookup::Marked(i) => Ok(i),
        LocationLookup::Typed(i) => Ok(i),
        LocationLookup::Missing => Err(plain_diagnostic(DiagnosticKind::NoLocationField, span)),
        LocationLookup::Failed(d) => Err(d),
    }
}

/// Finds the location field of a unit without changing the unit.
pub fn find_location_field(fields: &Vec<FieldDescriptor>, span: u64) -> (r: Result<
    usize,
    DefinitionError,
>)
    ensures
        match find_location_field_spec(fields.deep_view(), span) {
            Ok(i) => r == Ok::<usize, DefinitionError>(i as usize) && 0 <= i < fields.len(),
            Err(d) => r matches Err(e) && e.deep_view() == seq![d],
        },
{
    proof {
        lemma_first_from(fields.deep_view(), Probe::Marked, 0);
        lemma_first_from(fields.deep_view(), Probe::Typed, 0);
    }
    match search_location(fields) {
        Found::Marked(i) => Ok(i),
        Found::Typed(i) => Ok(i),
        Found::Missing => Err(DefinitionError::new(DiagnosticKind::NoLocationField, span)),
        Found::Failed(e) => Err(e),
    }
}

/// The position of the field that carries the cause: the first that does.
pub open spec fn find_source_field_spec(fields: Seq<FieldView>) -> Option<int> {
    first_from(fields, Probe::Source, 0)
}

/// Finds the field that carries the cause: the first that does.
pub fn find_source_field(fields: &Vec<FieldDescriptor>) -> (r: Option<usize>)
    ensures
        match r {
            Some(i) => i < fields.len() && find_source_field_spec(fields.deep_view()) == Some(
                i as int,
            ),
            None => find_source_field_spec(fields.deep_view()) is None,
        },
{
    find_from(fields, Probe::Source, 0)
}

/// The annotation `snafu(implicit)`, which asks for a value to be made where
/// the error is constructed.
pub open spec fn implicit_annotation_view(span: u64) -> AnnotationView {
    AnnotationView {
        family: Some("snafu"@),
        list: ArgumentListView::Items(
            seq![
                DirectiveView {
                    head: Some("implicit"@),
                    form: MetaForm::Path,
                    args: Seq::empty(),
                    text: "implicit"@,
                    span,
                },
            ],
        ),
        text: "snafu(implicit)"@,
        span,
    }
}

/// The annotation `snafu(implicit)`.
pub fn implicit_annotation(span: u64) -> (a: Annotation)
    ensures
        a.deep_view() == implicit_annotation_view(span),
{
    let mut items: Vec<Directive> = Vec::new();
    items.push(
        Directive {
            head: Some("implicit".to_owned()),
            form: MetaForm::Path,
            args: String::new(),
            text: "implicit".to_owned(),
            span,
        },
    );
    let a = Annotation {
        family: Some("snafu".to_owned()),
        list: ArgumentList::Items(items),
        text: "snafu(implicit)".to_owned(),
        span,
    };
    assert(a.deep_view().list =~= implicit_annotation_view(span).list) by {
        assert(items.deep_view() =~= seq![
            DirectiveView {
                head: Some("implicit"@),
                form: MetaForm::Path,
                args: Seq::empty(),
                text: "implicit"@,
                span,
            },
        ]);
    }
    a
}

/// The location field that a unit is given when it has none: named `location`,
/// of the type `Location` of the crate at `crate_path`, made where the error is
/// constructed, and marked with the location role.
pub open spec fn location_field_view(crate_path: Seq<char>, span: u64) -> FieldView {
    FieldView {
        name: "location"@,
        ty: TypeView {
            text: crate_path + "::Location"@,
            shape: TypeShapeView::Path(
                Some(
                    PathSegmentView {
                        ident: "Location"@,
                        ident_span: span,
                        arguments: PathArgumentsView::Absent,
                        span,
                    },
                ),
            ),
            span,
        },
        attrs: seq![implicit_annotation_view(span)],
        location_role: true,
        span,
    }
}

/// The location field that a unit is given when it has none.
pub fn location_field_impl(crate_path: &str, span: u64) -> (field: FieldDescriptor)
    ensures
        field.deep_view() == location_field_view(crate_path@, span),
{
    let mut text = crate_path.to_owned();
    text.append("::Location");
    let mut attrs: Vec<Annotation> = Vec::new();
    attrs.push(implicit_annotation(span));
    assert(attrs.deep_view() =~= seq![implicit_annotation_view(span)]);
    FieldDescriptor {
        name: "location".to_owned(),
        ty: TypeDescriptor {
            text,
            shape: TypeShape::Path(
                Some(
                    PathSegment {
                        ident: "Location".to_owned(),
                        ident_span: span,
                        arguments: PathArguments::Absent,
                        span,
                    },
                ),
            ),
            span,
        },
        attrs,
        location_role: true,
        span,
    }
}

/// `field` with the location role.
pub open spec fn marked(field: FieldView) -> FieldView {
    FieldView { location_role: true, ..field }
}

/// The location field of a unit, and the unit's fields once it is settled:
/// the field that the search gives, marked with the role; without one, a
/// location field added after the others.
pub open spec fn resolve_location_spec(
    fields: Seq<FieldView>,
    crate_path: Seq<char>,
    span: u64,
) -> Result<(int, Seq<FieldView>), DiagnosticView> {
    match lookup_location(fields) {
        LocationLookup::Marked(i) => Ok((i, fields)),
        LocationLookup::Typed(i) => Ok((i, fields.update(i, marked(fields[i])))),
        LocationLookup::Missing => Ok(
            (fields.len() as int, fields.push(location_field_view(crate_path, span))),
        ),
        LocationLookup::Failed(d) => Err(d),
    }
}

/// Settles the location field of a unit. On an error the fields are unchanged.
pub fn resolve_location(fields: &mut Vec<FieldDescriptor>, crate_path: &str, span: u64) -> (r:
    Result<usize, DefinitionError>)
    ensures
        match resolve_location_spec(old(fields).deep_view(), crate_path@, span) {
            Ok((i, after)) => r == Ok::<usize, DefinitionError>(i as usize) && 0 <= i < after.len()
                && final(fields).deep_view() == after,
            Err(d) => r matches Err(e) && e.deep_view() == seq![d] && final(fields).deep_view()
                == old(fields).deep_view(),
        },
{
    proof {
        lemma_first_from(fields.deep_view(), Probe::Marked, 0);
        lemma_first_from(fields.deep_view(), Probe::Typed, 0);
    }
    match search_location(fields) {
        Found::Marked(i) => Ok(i),
        Found::Typed(i) => {
            let mut field = fields.remove(i);
            field.location_role = true;
            fields.insert(i, field);
            Ok(i)
        },
        Found::Missing => {
            let at = fields.len();
            let field = location_field_impl(crate_path, span);
            fields.push(field);
            Ok(at)
        },
        Found::Failed(e) => Err(e),
    }
}

/// The roles at the positions `location` and `source`.
pub open spec fn roles_at(location: int, source: Option<int>) -> ResolvedRoles {
    ResolvedRoles {
        location_field: location as usize,
        source_field: match source {
            Some(j) => Some(j as usize),
            None => None,
        },
    }
}

/// What is wrong with the first item of a `stack` annotation that is not the
/// word `location`: the diagnostic is at the item and holds it as it is written.
pub open spec fn first_item_fault(items: Seq<DirectiveView>) -> Option<DiagnosticView>
    decreases items.len(),
{
    if items.len() == 0 {
        None
    } else {
        match first_item_fault(items.drop_last()) {
            Some(d) => Some(d),
            None => if is_location_role(items.last()) {
                None
            } else {
                Some(
                    DiagnosticView {
                        kind: DiagnosticKind::StackUnknownArgument,
                        span: items.last().span,
                        detail: items.last().text,
                    },
                )
            },
        }
    }
}

/// What is wrong with an annotation as a marker of the location role. Only
/// a `stack` annotation can be wrong: one without a list or with an empty
/// one, one whose list cannot be read, and one with an item that is not the
/// word `location`.
pub open spec fn annotation_fault(a: AnnotationView) -> Option<DiagnosticView> {
    if a.family != Some("stack"@) {
        None
    } else {
        match a.list {
            ArgumentListView::Absent => Some(
                plain_diagnostic(DiagnosticKind::StackWithoutArguments, a.span),
            ),
            ArgumentListView::Malformed(why) => Some(
                DiagnosticView { kind: DiagnosticKind::Syntax, span: a.span, detail: why },
            ),
            ArgumentListView::Items(items) => if items.len() == 0 {
                Some(plain_diagnostic(DiagnosticKind::StackWithoutArguments, a.span))
            } else {
                first_item_fault(items)
            },
        }
    }
}

/// What is wrong with the first annotation of a list that is wrong.
pub open spec fn first_annotation_fault(attrs: Seq<AnnotationView>) -> Option<DiagnosticView>
    decreases attrs.len(),
{
    if attrs.len() == 0 {
        None
    } else {
        match first_annotation_fault(attrs.drop_last()) {
            Some(d) => Some(d),
            None => annotation_fault(attrs.last()),
        }
    }
}

/// What is wrong with the first `stack` annotation of a unit that is wrong,
/// going through the fields in order and through the annotations of each.
pub open spec fn stack_fault(fields: Seq<FieldView>) -> Option<DiagnosticView>
    decreases fields.len(),
{
    if fields.len() == 0 {
        None
    } else {
        match stack_fault(fields.drop_last()) {
            Some(d) => Some(d),
            None => first_annotation_fault(fields.last().attrs),
        }
    }
}

/// Whether what executable code found is what the specification finds.
spec fn found_is(found: Option<DefinitionError>, fault: Option<DiagnosticView>) -> bool {
    match fault {
        Some(d) => found matches Some(e) && e.deep_view() == seq![d],
        None => found is None,
    }
}

fn find_item_fault(items: &Vec<Directive>) -> (found: Option<DefinitionError>)
    ensures
        found_is(found, first_item_fault(items.deep_view())),
{
    let ghost all = items.deep_view();
    let mut found: Option<DefinitionError> = None;
    let mut i: usize = 0;
    assert(all.take(0) =~= Seq::empty());
    while i < items.len()
        invariant
            i <= items.len(),
            all == items.deep_view(),
            found_is(found, first_item_fault(all.take(i as int))),
        decreases items.len() - i,
    {
        assert(all.take(i + 1).drop_last() =~= all.take(i as int));
        let d = &items[i];
        let is_word = match d.form {
            MetaForm::Path => head_is(d, "location"),
            _ => false,
        };
        if found.is_none() && !is_word {
            found = Some(
                DefinitionError::detailed(
                    DiagnosticKind::StackUnknownArgument,
                    d.text.clone(),
                    d.span,
                ),
            );
        }
        i = i + 1;
    }
    assert(all.take(items.len() as int) =~= all);
    found
}

fn find_annotation_fault(a: &Annotation) -> (found: Option<DefinitionError>)
    ensures
        found_is(found, annotation_fault(a.deep_view())),
{
    if !family_is(a, "stack") {
        return None;
    }
    match &a.list {
        ArgumentList::Absent => Some(
            DefinitionError::new(DiagnosticKind::StackWithoutArguments, a.span),
        ),
        ArgumentList::Malformed(why) => Some(DefinitionError::syntax(why.clone(), a.span)),
        ArgumentList::Items(items) => if items.len() == 0 {
            Some(DefinitionError::new(DiagnosticKind::StackWithoutArguments, a.span))
        } else {
            find_item_fault(items)
        },
    }
}

fn find_first_annotation_fault(attrs: &Vec<Annotation>) -> (found: Option<DefinitionError>)
    ensures
        found_is(found, first_annotation_fault(attrs.deep_view())),
{
    let ghost all = attrs.deep_view();
    let mut found: Option<DefinitionError> = None;
    let mut i: usize = 0;
    assert(all.take(0) =~= Seq::empty());
    while i < attrs.len()
        invariant
            i <= attrs.len(),
            all == attrs.deep_view(),
            found_is(found, first_annotation_fault(all.take(i as int))),
        decreases attrs.len() - i,
    {
        assert(all.take(i + 1).drop_last() =~= all.take(i as int));
        if found.is_none() {
            found = find_annotation_fault(&attrs[i]);
        }
        i = i + 1;
    }
    assert(all.take(attrs.len() as int) =~= all);
    found
}

/// Looks for a `stack` annotation that is wrong among the fields of a unit.
pub fn check_stack_annotations(fields: &Vec<FieldDescriptor>) -> (r: Result<(), DefinitionError>)
    ensures
        match stack_fault(fields.deep_view()) {
            Some(d) => r matches Err(e) && e.deep_view() == seq![d],
            None => r is Ok,
        },
{
    let ghost all = fields.deep_view();
    let mut found: Option<DefinitionError> = None;
    let mut i: usize = 0;
    assert(all.take(0) =~= Seq::empty());
    while i < fields.len()
        invariant
            i <= fields.len(),
            all == fields.deep_view(),
            found_is(found, stack_fault(all.take(i as int))),
        decreases fields.len() - i,
    {
        assert(all.take(i + 1).drop_last() =~= all.take(i as int));
        if found.is_none() {
            found = find_first_annotation_fault(&fields[i].attrs);
        }
        i = i + 1;
    }
    assert(all.take(fields.len() as int) =~= all);
    match found {
        Some(e) => Err(e),
        None => Ok(()),
    }
}

/// A unit has no `stack` annotation that is wrong exactly where none of its
/// fields has one.
pub proof fn lemma_stack_fault_by_field(fields: Seq<FieldView>)
    ensures
        stack_fault(fields) is None <==> forall|k: int|
            0 <= k < fields.len() ==> first_annotation_fault((#[trigger] fields[k]).attrs) is None,
    decreases fields.len(),
{
    if fields.len() > 0 {
        lemma_stack_fault_by_field(fields.drop_last());
        if stack_fault(fields) is None {
            assert forall|k: int| 0 <= k < fields.len() implies first_annotation_fault(
                (#[trigger] fields[k]).attrs,
            ) is None by {
                if k < fields.len() - 1 {
                    assert(fields.drop_last()[k] == fields[k]);
                }
            }
        } else if stack_fault(fields.drop_last()) is Some {
            let k = choose|k: int|
                0 <= k < fields.drop_last().len() && first_annotation_fault(
                    (#[trigger] fields.drop_last()[k]).attrs,
                ) is Some;
            assert(fields[k] == fields.drop_last()[k]);
        } else {
            assert(first_annotation_fault(fields[fields.len() - 1].attrs) is Some);
        }
    }
}

/// Settling the location field of a unit brings no `stack` annotation that
/// is wrong: a field that is marked keeps its annotations, and the field that
/// is added has none of that family.
pub proof fn lemma_settling_adds_no_fault(
    fields: Seq<FieldView>,
    crate_path: Seq<char>,
    span: u64,
    i: int,
    after: Seq<FieldView>,
)
    requires
        resolve_location_spec(fields, crate_path, span) == Ok::<
            (int, Seq<FieldView>),
            DiagnosticView,
        >((i, after)),
        stack_fault(fields) is None,
    ensures
        stack_fault(after) is None,
{
    lemma_stack_fault_by_field(fields);
    lemma_stack_fault_by_field(after);
    lemma_first_from(fields, Probe::Marked, 0);
    lemma_first_from(fields, Probe::Typed, 0);
    let added = location_field_view(crate_path, span);
    assert(first_annotation_fault(added.attrs) is None) by {
        assert("snafu"@ != "stack"@) by {
            reveal_strlit("snafu");
            reveal_strlit("stack");
            assert("snafu"@[1] == 'n');
            assert("stack"@[1] == 't');
        }
        assert(added.attrs.drop_last() =~= Seq::<AnnotationView>::empty());
        assert(first_annotation_fault(added.attrs.drop_last()) is None);
        assert(added.attrs.last().family == Some("snafu"@));
    }
    assert forall|k: int| 0 <= k < after.len() implies first_annotation_fault(
        (#[trigger] after[k]).attrs,
    ) is None by {
        if k < fields.len() {
            assert(after[k].attrs == fields[k].attrs);
        }
    }
}

/// The roles of one unit, and the unit's fields once they are settled. A
/// `stack` annotation that is wrong is refused first. Then the location field
/// is settled, and the field of the cause is looked for among the settled
/// fields.
pub open spec fn resolve_roles_spec(fields: Seq<FieldView>, crate_path: Seq<char>, span: u64)
    -> Result<(ResolvedRoles, Seq<FieldView>), DiagnosticView> {
    match stack_fault(fields) {
        Some(d) => Err(d),
        None => match resolve_location_spec(fields, crate_path, span) {
            Ok((i, after)) => Ok((roles_at(i, find_source_field_spec(after)), after)),
            Err(d) => Err(d),
        },
    }
}

/// Settles the roles of one unit. On an error the fields are unchanged.
pub fn resolve_roles(fields: &mut Vec<FieldDescriptor>, crate_path: &str, span: u64) -> (r: Result<
    ResolvedRoles,
    DefinitionError,
>)
    ensures
        match resolve_roles_spec(old(fields).deep_view(), crate_path@, span) {
            Ok((roles, after)) => {
                &&& r == Ok::<ResolvedRoles, DefinitionError>(roles)
                &&& final(fields).deep_view() == after
                &&& roles.location_field < after.len()
                &&& (roles.source_field matches Some(j) ==> j < after.len())
            },
            Err(d) => r matches Err(e) && e.deep_view() == seq![d] && final(fields).deep_view()
                == old(fields).deep_view(),
        },
{
    match check_stack_annotations(fields) {
        Err(e) => {
            return Err(e);
        },
        Ok(()) => {},
    }
    let location_field = match resolve_location(fields, crate_path, span) {
        Ok(i) => i,
        Err(e) => {
            return Err(e);
        },
    };
    let source_field = find_source_field(fields);
    Ok(ResolvedRoles { location_field, source_field })
}

/// The least position at or after `from` that answers a probe is what `first_from` finds.
pub proof fn lemma_first_from_at(fields: Seq<FieldView>, probe: Probe, from: int, i: int)
    requires
        0 <= from <= i < fields.len(),
        answers(probe, fields[i]),
        forall|k: int| from <= k < i ==> !answers(probe, #[trigger] fields[k]),
    ensures
        first_from(fields, probe, from) == Some(i),
    decreases i - from,
{
    if from < i {
        lemma_first_from_at(fields, probe, from + 1, i);
    }
}

/// Where no position at or after `from` answers a probe, `first_from` finds none.
pub proof fn lemma_first_from_none(fields: Seq<FieldView>, probe: Probe, from: int)
    requires
        0 <= from,
        forall|k: int| from <= k < fields.len() ==> !answers(probe, #[trigger] fields[k]),
    ensures
        first_from(fields, probe, from) is None,
    decreases fields.len() - from,
{
    if from < fields.len() {
        lemma_first_from_none(fields, probe, from + 1);
    }
}

/// A unit without a marked field, without a field of the location type and
/// without a field named `location` is given exactly one location field: it
/// is added after the others, and it is the only field that carries the role.
pub proof fn lemma_location_is_synthesized(fields: Seq<FieldView>, crate_path: Seq<char>, span: u64)
    requires
        forall|k: int|
            0 <= k < fields.len() ==> !(#[trigger] fields[k]).location_role
                && !is_location_type_spec(fields[k].ty) && fields[k].name != "location"@,
    ensures
        resolve_location_spec(fields, crate_path, span) == Ok::<
            (int, Seq<FieldView>),
            DiagnosticView,
        >((fields.len() as int, fields.push(location_field_view(crate_path, span)))),
        forall|k: int|
            0 <= k <= fields.len() ==> ((#[trigger] fields.push(
                location_field_view(crate_path, span),
            )[k]).location_role <==> k == fields.len()),
{
    lemma_first_from_none(fields, Probe::Marked, 0);
    lemma_first_from_none(fields, Probe::Typed, 0);
    lemma_first_from_none(fields, Probe::Named, 0);
}

/// A unit with two fields marked with the location role directive is
/// rejected for its multiple location markers.
pub proof fn lemma_two_markers_rejected(
    fields: Seq<FieldView>,
    crate_path: Seq<char>,
    span: u64,
    i: int,
    j: int,
)
    requires
        0 <= i < j < fields.len(),
        fields[i].location_role,
        fields[j].location_role,
    ensures
        resolve_location_spec(fields, crate_path, span) matches Err(d) && d.kind
            == DiagnosticKind::MultipleLocationMarkers,
        find_location_field_spec(fields, span) matches Err(d) && d.kind
            == DiagnosticKind::MultipleLocationMarkers,
{
    lemma_first_from(fields, Probe::Marked, 0);
    assert(answers(Probe::Marked, fields[i]));
    let first = first_from(fields, Probe::Marked, 0).unwrap();
    lemma_first_from(fields, Probe::Marked, first + 1);
    assert(answers(Probe::Marked, fields[j]));
}

/// A unit whose field named `location` has the wrong type, and that has
/// neither a marked field nor a field of the location type, is rejected for
/// that wrong type, which is another diagnostic than the one for an
/// ambiguous location.
pub proof fn lemma_wrong_type_rejected(
    fields: Seq<FieldView>,
    crate_path: Seq<char>,
    span: u64,
    i: int,
)
    requires
        0 <= i < fields.len(),
        fields[i].name == "location"@,
        forall|k: int|
            0 <= k < fields.len() ==> !(#[trigger] fields[k]).location_role
                && !is_location_type_spec(fields[k].ty),
    ensures
        resolve_location_spec(fields, crate_path, span) matches Err(d) && d.kind
            == DiagnosticKind::WrongLocationType && d.kind != DiagnosticKind::AmbiguousLocationType,
        find_location_field_spec(fields, span) matches Err(d) && d.kind
            == DiagnosticKind::WrongLocationType,
{
    lemma_first_from_none(fields, Probe::Marked, 0);
    lemma_first_from_none(fields, Probe::Typed, 0);
    lemma_first_from(fields, Probe::Named, 0);
    assert(answers(Probe::Named, fields[i]));
}

/// A unit with exactly one marked field keeps its fields: nothing is marked
/// and nothing is added.
pub proof fn lemma_marked_unit_is_kept(
    fields: Seq<FieldView>,
    crate_path: Seq<char>,
    span: u64,
    i: int,
)
    requires
        0 <= i < fields.len(),
        forall|k: int| 0 <= k < fields.len() ==> ((#[trigger] fields[k]).location_role <==> k == i),
    ensures
        resolve_location_spec(fields, crate_path, span) == Ok::<
            (int, Seq<FieldView>),
            DiagnosticView,
        >((i, fields)),
        find_location_field_spec(fields, span) == Ok::<int, DiagnosticView>(i),
{
    lemma_first_from_at(fields, Probe::Marked, 0, i);
    lemma_first_from_none(fields, Probe::Marked, i + 1);
}

/// Once the location field of a unit is settled, exactly one field of the
/// unit carries the location role: the settled one. It is what a search finds.
pub proof fn lemma_settled_unit_has_one_location(
    fields: Seq<FieldView>,
    crate_path: Seq<char>,
    span: u64,
    i: int,
    after: Seq<FieldView>,
)
    requires
        resolve_location_spec(fields, crate_path, span) == Ok::<
            (int, Seq<FieldView>),
            DiagnosticView,
        >((i, after)),
    ensures
        0 <= i < after.len(),
        forall|k: int| 0 <= k < after.len() ==> ((#[trigger] after[k]).location_role <==> k == i),
        forall|other: u64| find_location_field_spec(after, other) == Ok::<int, DiagnosticView>(i),
{
    lemma_first_from(fields, Probe::Marked, 0);
    match lookup_location(fields) {
        LocationLookup::Marked(m) => {
            lemma_first_from(fields, Probe::Marked, m + 1);
        },
        LocationLookup::Typed(t) => {
            lemma_first_from(fields, Probe::Typed, 0);
            assert forall|k: int| 0 <= k < after.len() implies ((#[trigger] after[k]).location_role
                <==> k == i) by {
                assert(k != i ==> !answers(Probe::Marked, fields[k]));
            }
        },
        LocationLookup::Missing => {
            assert forall|k: int| 0 <= k < after.len() implies ((#[trigger] after[k]).location_role
                <==> k == i) by {
                assert(k != i ==> !answers(Probe::Marked, fields[k]));
            }
        },
        LocationLookup::Failed(d) => {},
    }
    assert forall|other: u64| find_location_field_spec(after, other) == Ok::<int, DiagnosticView>(
        i,
    ) by {
        lemma_marked_unit_is_kept(after, crate_path, other, i);
    }
}

/// Settling the roles of a unit whose roles are settled changes nothing and
/// gives the same roles.
pub proof fn lemma_resolve_roles_idempotent(
    fields: Seq<FieldView>,
    crate_path: Seq<char>,
    span: u64,
    roles: ResolvedRoles,
    after: Seq<FieldView>,
)
    requires
        resolve_roles_spec(fields, crate_path, span) == Ok::<
            (ResolvedRoles, Seq<FieldView>),
            DiagnosticView,
        >((roles, after)),
    ensures
        resolve_roles_spec(after, crate_path, span) == Ok::<
            (ResolvedRoles, Seq<FieldView>),
            DiagnosticView,
        >((roles, after)),
{
    let settled = resolve_location_spec(fields, crate_path, span)->Ok_0;
    lemma_settling_adds_no_fault(fields, crate_path, span, settled.0, after);
    lemma_first_from(fields, Probe::Marked, 0);
    match lookup_location(fields) {
        LocationLookup::Marked(i) => {},
        LocationLookup::Typed(i) => {
            lemma_first_from(fields, Probe::Typed, 0);
            assert forall|k: int| 0 <= k < after.len() implies ((#[trigger] after[k]).location_role
                <==> k == i) by {
                assert(k != i ==> !answers(Probe::Marked, fields[k]));
            }
            lemma_marked_unit_is_kept(after, crate_path, span, i);
        },
        LocationLookup::Missing => {
            let n = fields.len() as int;
            assert forall|k: int| 0 <= k < after.len() implies ((#[trigger] after[k]).location_role
                <==> k == n) by {
                assert(k != n ==> !answers(Probe::Marked, fields[k]));
            }
            lemma_marked_unit_is_kept(after, crate_path, span, n);
        },
        LocationLookup::Failed(d) => {},
    }
}

/// Whether an annotation is the marker of the location role: a `stack`
/// annotation whose list holds the bare word `location`. A `stack`
/// annotation that holds anything else, or nothing, is refused where the
/// roles are settled: see `annotation_fault`.
pub open spec fn is_location_marker_spec(a: AnnotationView) -> bool {
    a.family == Some("stack"@) && match a.list {
        ArgumentListView::Items(items) => any_location(items),
        _ => false,
    }
}

/// Whether one of the annotations is the marker of the location role.
pub open spec fn has_location_marker_spec(attrs: Seq<AnnotationView>) -> bool
    decreases attrs.len(),
{
    attrs.len() > 0 && (has_location_marker_spec(attrs.drop_last()) || is_location_marker_spec(
        attrs.last(),
    ))
}

/// Whether an annotation is the marker of the location role.
pub fn is_location_marker(a: &Annotation) -> (r: bool)
    ensures
        r == is_location_marker_spec(a.deep_view()),
{
    if !family_is(a, "stack") {
        return false;
    }
    match &a.list {
        ArgumentList::Items(items) => {
            let ghost all = items.deep_view();
            let mut found = false;
            let mut i: usize = 0;
            while i < items.len()
                invariant
                    i <= items.len(),
                    all == items.deep_view(),
                    found == any_location(all.take(i as int)),
                decreases items.len() - i,
            {
                assert(all.take(i + 1).drop_last() =~= all.take(i as int));
                let is_word = match items[i].form {
                    MetaForm::Path => head_is(&items[i], "location"),
                    _ => false,
                };
                if is_word {
                    found = true;
                }
                i = i + 1;
            }
            assert(all.take(items.len() as int) =~= all);
            found
        },
        _ => false,
    }
}

/// Whether one of the annotations is the marker of the location role.
pub fn has_location_marker(attrs: &Vec<Annotation>) -> (r: bool)
    ensures
        r == has_location_marker_spec(attrs.deep_view()),
{
    let ghost all = attrs.deep_view();
    let mut found = false;
    let mut i: usize = 0;
    while i < attrs.len()
        invariant
            i <= attrs.len(),
            all == attrs.deep_view(),
            found == has_location_marker_spec(all.take(i as int)),
        decreases attrs.len() - i,
    {
        assert(all.take(i + 1).drop_last() =~= all.take(i as int));
        if is_location_marker(&attrs[i]) {
            found = true;
        }
        i = i + 1;
    }
    assert(all.take(attrs.len() as int) =~= all);
    found
}

/// A field as it is read from a definition: it carries the location role
/// where one of its annotations is the marker of that role.
pub open spec fn read_field_spec(
    name: Seq<char>,
    ty: TypeView,
    attrs: Seq<AnnotationView>,
    span: u64,
) -> FieldView {
    FieldView { name, ty, attrs, location_role: has_location_marker_spec(attrs), span }
}

/// Reads a field of a definition.
pub fn read_field(name: String, ty: TypeDescriptor, attrs: Vec<Annotation>, span: u64) -> (field:
    FieldDescriptor)
    ensures
        field.deep_view() == read_field_spec(name@, ty.deep_view(), attrs.deep_view(), span),
{
    let location_role = has_location_marker(&attrs);
    FieldDescriptor { name, ty, attrs, location_role, span }
}

/// The marker of the location role: the annotation `stack(location)`.
pub open spec fn location_marker_view(span: u64) -> AnnotationView {
    AnnotationView {
        family: Some("stack"@),
        list: ArgumentListView::Items(
            seq![
                DirectiveView {
                    head: Some("location"@),
                    form: MetaForm::Path,
                    args: Seq::empty(),
                    text: "location"@,
                    span,
                },
            ],
        ),
        text: "stack(location)"@,
        span,
    }
}

/// The marker of the location role.
pub fn location_marker(span: u64) -> (a: Annotation)
    ensures
        a.deep_view() == location_marker_view(span),
{
    let mut items: Vec<Directive> = Vec::new();
    items.push(
        Directive {
            head: Some("location".to_owned()),
            form: MetaForm::Path,
            args: String::new(),
            text: "location".to_owned(),
            span,
        },
    );
    let a = Annotation {
        family: Some("stack".to_owned()),
        list: ArgumentList::Items(items),
        text: "stack(location)".to_owned(),
        span,
    };
    assert(a.deep_view().list =~= location_marker_view(span).list) by {
        assert(items.deep_view() =~= seq![
            DirectiveView {
                head: Some("location"@),
                form: MetaForm::Path,
                args: Seq::empty(),
                text: "location"@,
                span,
            },
        ]);
    }
    a
}

/// The annotations with which a field is written back into its definition:
/// its own, and behind them the marker of the location role where the field
/// carries the role and has no marker yet.
pub open spec fn written_annotations_spec(field: FieldView) -> Seq<AnnotationView> {
    if field.location_role && !has_location_marker_spec(field.attrs) {
        field.attrs.push(location_marker_view(field.span))
    } else {
        field.attrs
    }
}

/// The annotations with which a field is written back into its definition.
pub fn written_annotations(field: &FieldDescriptor) -> (attrs: Vec<Annotation>)
    ensures
        attrs.deep_view() == written_annotations_spec(field.deep_view()),
{
    let mut attrs = crate::schema::clone_annotations(&field.attrs);
    if field.location_role && !has_location_marker(&field.attrs) {
        let ghost before = attrs@;
        let marker = location_marker(field.span);
        proof {
            lemma_deep_vec(attrs);
        }
        attrs.push(marker);
        proof {
            lemma_deep_vec(attrs);
            lemma_deep_push(before, marker);
        }
    }
    attrs
}

/// A field that carries the location role is read as carrying it once it is
/// written back: what is written holds the marker exactly where the field
/// carries the role or held the marker before.
pub proof fn lemma_written_field_is_read_back(field: FieldView)
    ensures
        has_location_marker_spec(written_annotations_spec(field)) == (field.location_role
            || has_location_marker_spec(field.attrs)),
{
    let written = written_annotations_spec(field);
    if field.location_role && !has_location_marker_spec(field.attrs) {
        assert(written.drop_last() =~= field.attrs);
        let items = seq![
            DirectiveView {
                head: Some("location"@),
                form: MetaForm::Path,
                args: Seq::empty(),
                text: "location"@,
                span: field.span,
            },
        ];
        assert(items.drop_last() =~= Seq::<DirectiveView>::empty());
        assert(is_location_role(items.last()));
        assert(any_location(items));
        assert(is_location_marker_spec(written.last()));
    }
}

} // verus!
