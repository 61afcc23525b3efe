//! The capability generator: from a type definition with settled fields to
//! the plan of its capability implementation.

use vstd::prelude::*;
use crate::diagnostic::{plain_diagnostic, DefinitionError, DiagnosticKind, DiagnosticView};
use crate::helper::{
    check_stack_annotations, find_location_field, find_location_field_spec, find_source_field,
    find_source_field_spec, stack_fault,
};
use crate::schema::{
    FieldDescriptor, FieldView, Fields, FieldsView, Generics, GenericsView, ItemBody,
    ItemBodyView, SchemaItem, SchemaItemView, VariantDescriptor, VariantView,
};
use crate::views::lemma_deep_push;

verus! {

/// The accessors of one schema unit: which field each of them reads.
#[derive(Debug, PartialEq, Eq)]
pub struct UnitAccessors {
    /// The case that the unit is; `None` for a record.
    pub case: Option<String>,
    /// The field that the location accessor returns.
    pub location_field: String,
    /// What the type-name accessor returns.
    pub type_label: String,
    /// The field that carries the cause, where the unit has one. Both cause
    /// accessors look at it; of which sort the cause is, the type of the
    /// field decides where the implementation is compiled.
    pub source_field: Option<String>,
}

/// What an `UnitAccessors` holds, as the contracts see it.
pub struct UnitAccessorsView {
    pub case: Option<Seq<char>>,
    pub location_field: Seq<char>,
    pub type_label: Seq<char>,
    pub source_field: Option<Seq<char>>,
}

impl DeepView for UnitAccessors {
    type V = UnitAccessorsView;

    open spec fn deep_view(&self) -> UnitAccessorsView {
        UnitAccessorsView {
            case: self.case.deep_view(),
            location_field: self.location_field@,
            type_label: self.type_label@,
            source_field: self.source_field.deep_view(),
        }
    }
}

/// The conversion of a type into the type-erasure wrapper.
#[derive(Debug, PartialEq, Eq)]
pub struct BoxedConversion {
    /// The predicates of the type's own `where` clause, which the conversion repeats.
    pub predicates: Vec<String>,
}

/// What a `BoxedConversion` holds, as the contracts see it.
pub struct BoxedConversionView {
    pub predicates: Seq<Seq<char>>,
}

impl DeepView for BoxedConversion {
    type V = BoxedConversionView;

    open spec fn deep_view(&self) -> BoxedConversionView {
        BoxedConversionView { predicates: self.predicates.deep_view() }
    }
}

/// The plan of the capability implementation of one type.
#[derive(Debug, PartialEq, Eq)]
pub struct StackErrorImpl {
    /// The type that gets the implementation.
    pub target: String,
    /// The crate that holds the capability interface.
    pub crate_path: String,
    pub generics: Generics,
    /// The accessors of each unit: one for a record, one per case otherwise.
    pub units: Vec<UnitAccessors>,
    /// Whether some unit has a cause, so that some arm of a cause accessor
    /// hands a cause out. The text of the implementation does not depend on
    /// it: see `render_spec`.
    pub has_stack_source: bool,
    /// The conversion into the type-erasure wrapper, in the tiers that have one.
    pub boxed: Option<BoxedConversion>,
}

/// What a `StackErrorImpl` holds, as the contracts see it.
pub struct StackErrorImplView {
    pub target: Seq<char>,
    pub crate_path: Seq<char>,
    pub generics: GenericsView,
    pub units: Seq<UnitAccessorsView>,
    pub has_stack_source: bool,
    pub boxed: Option<BoxedConversionView>,
}

impl DeepView for StackErrorImpl {
    type V = StackErrorImplView;

    open spec fn deep_view(&self) -> StackErrorImplView {
        StackErrorImplView {
            target: self.target@,
            crate_path: self.crate_path@,
            generics: self.generics.deep_view(),
            units: self.units.deep_view(),
            has_stack_source: self.has_stack_source,
            boxed: self.boxed.deep_view(),
        }
    }
}

/// A copy of a list of texts.
pub fn clone_texts(texts: &Vec<String>) -> (copy: Vec<String>)
    ensures
        copy.deep_view() == texts.deep_view(),
{
    let mut copy: Vec<String> = Vec::new();
    let mut i: usize = 0;
    while i < texts.len()
        invariant
            i <= texts.len(),
            copy.len() == i,
            forall|k: int| 0 <= k < i ==> (#[trigger] copy@[k])@ == texts@[k]@,
        decreases texts.len() - i,
    {
        copy.push(texts[i].clone());
        i = i + 1;
    }
    copy
}

/// A copy of the generic parameters of a definition.
pub fn clone_generics(generics: &Generics) -> (copy: Generics)
    ensures
        copy.deep_view() == generics.deep_view(),
{
    Generics {
        impl_generics: generics.impl_generics.clone(),
        ty_generics: generics.ty_generics.clone(),
        where_predicates: match &generics.where_predicates {
            Some(predicates) => Some(clone_texts(predicates)),
            None => None,
        },
    }
}

/// The conversion into the type-erasure wrapper: none in the tier without
/// allocation; else one that repeats the predicates of the `where` clause.
pub open spec fn boxed_stack_error_impl_spec(generics: GenericsView, alloc: bool) -> Option<
    BoxedConversionView,
> {
    if alloc {
        Some(
            BoxedConversionView {
                predicates: match generics.where_predicates {
                    Some(predicates) => predicates,
                    None => Seq::empty(),
                },
            },
        )
    } else {
        None
    }
}

/// Plans the conversion of a type into the type-erasure wrapper.
pub fn boxed_stack_error_impl(generics: &Generics, alloc: bool) -> (r: Option<BoxedConversion>)
    ensures
        r.deep_view() == boxed_stack_error_impl_spec(generics.deep_view(), alloc),
{
    if !alloc {
        return None;
    }
    let predicates = match &generics.where_predicates {
        Some(predicates) => clone_texts(predicates),
        None => {
            let none: Vec<String> = Vec::new();
            assert(none.deep_view() =~= Seq::<Seq<char>>::empty());
            none
        },
    };
    Some(BoxedConversion { predicates })
}

/// The name of the field at `at`, where there is one.
pub open spec fn field_name_at(fields: Seq<FieldView>, at: Option<int>) -> Option<Seq<char>> {
    match at {
        Some(i) => Some(fields[i].name),
        None => None,
    }
}

/// The accessors of a unit with the given fields. A `stack` annotation that
/// is wrong is refused first. The location field is then the one that the
/// field role resolver finds, and so is the field of the cause.
pub open spec fn unit_accessors_spec(
    case: Option<Seq<char>>,
    type_label: Seq<char>,
    fields: Seq<FieldView>,
    span: u64,
) -> Result<UnitAccessorsView, DiagnosticView> {
    match stack_fault(fields) {
        Some(d) => Err(d),
        None => match find_location_field_spec(fields, span) {
            Ok(i) => Ok(
                UnitAccessorsView {
                    case,
                    location_field: fields[i].name,
                    type_label,
                    source_field: field_name_at(fields, find_source_field_spec(fields)),
                },
            ),
            Err(d) => Err(d),
        },
    }
}

fn unit_accessors(
    case: Option<String>,
    type_label: String,
    fields: &Vec<FieldDescriptor>,
    span: u64,
) -> (r: Result<UnitAccessors, DefinitionError>)
    ensures
        match unit_accessors_spec(case.deep_view(), type_label@, fields.deep_view(), span) {
            Ok(unit) => r matches Ok(u) && u.deep_view() == unit,
            Err(d) => r matches Err(e) && e.deep_view() == seq![d],
        },
{
    match check_stack_annotations(fields) {
        Err(e) => {
            return Err(e);
        },
        Ok(()) => {},
    }
    let at = match find_location_field(fields, span) {
        Ok(at) => at,
        Err(e) => {
            return Err(e);
        },
    };
    let source_field = match find_source_field(fields) {
        Some(j) => {
            Some(fields[j].name.clone())
        },
        None => None,
    };
    Ok(UnitAccessors { case, location_field: fields[at].name.clone(), type_label, source_field })
}

/// Whether some unit of a plan has a cause.
pub open spec fn any_source(units: Seq<UnitAccessorsView>) -> bool {
    exists|k: int| 0 <= k < units.len() && (#[trigger] units[k]).source_field is Some
}

/// The plan for a record named `name` with the given named fields. The
/// field that carries the cause is planned whatever its declared type is; in
/// the text of the implementation it is handed to the resolvers, which
/// decide by its type of which sort the cause is (`arm_text`).
pub open spec fn generate_struct_impl_spec(
    name: Seq<char>,
    fields: Seq<FieldView>,
    fields_span: u64,
    crate_path: Seq<char>,
    generics: GenericsView,
    alloc: bool,
) -> Result<StackErrorImplView, DiagnosticView> {
    match unit_accessors_spec(None, name, fields, fields_span) {
        Ok(unit) => Ok(
            StackErrorImplView {
                target: name,
                crate_path,
                generics,
                units: seq![unit],
                has_stack_source: unit.source_field is Some,
                boxed: boxed_stack_error_impl_spec(generics, alloc),
            },
        ),
        Err(d) => Err(d),
    }
}

/// Plans the capability implementation of a record.
pub fn generate_struct_impl(
    name: &String,
    fields: &Vec<FieldDescriptor>,
    fields_span: u64,
    crate_path: &str,
    generics: &Generics,
    alloc: bool,
) -> (r: Result<StackErrorImpl, DefinitionError>)
    ensures
        match generate_struct_impl_spec(
            name@,
            fields.deep_view(),
            fields_span,
            crate_path@,
            generics.deep_view(),
            alloc,
        ) {
            Ok(plan) => r matches Ok(p) && p.deep_view() == plan,
            Err(d) => r matches Err(e) && e.deep_view() == seq![d],
        },
{
    let unit = match unit_accessors(None, name.clone(), fields, fields_span) {
        Ok(unit) => unit,
        Err(e) => {
            return Err(e);
        },
    };
    let has_stack_source = unit.source_field.is_some();
    let mut units: Vec<UnitAccessors> = Vec::new();
    units.push(unit);
    assert(units.deep_view() =~= seq![unit.deep_view()]);
    Ok(
        StackErrorImpl {
            target: name.clone(),
            crate_path: crate_path.to_owned(),
            generics: clone_generics(generics),
            units,
            has_stack_source,
            boxed: boxed_stack_error_impl(generics, alloc),
        },
    )
}

/// Whether the fields of a case are named.
pub open spec fn is_named(v: VariantView) -> bool {
    v.fields is Named
}

/// The position of the first case at or after `from` whose fields are not named.
pub open spec fn first_unnamed(variants: Seq<VariantView>, from: int) -> Option<int>
    decreases variants.len() - from,
{
    if from < 0 || from >= variants.len() {
        None
    } else if !is_named(variants[from]) {
        Some(from)
    } else {
        first_unnamed(variants, from + 1)
    }
}

/// What a case is named in reports: the type's name, `::`, and the case's name.
pub open spec fn case_label(owner: Seq<char>, case: Seq<char>) -> Seq<char> {
    owner + "::"@ + case
}

/// The accessors of one case.
pub open spec fn case_accessors_spec(owner: Seq<char>, v: VariantView) -> Result<
    UnitAccessorsView,
    DiagnosticView,
> {
    match v.fields {
        FieldsView::Named(fields) => unit_accessors_spec(
            Some(v.name),
            case_label(owner, v.name),
            fields,
            v.span,
        ),
        _ => Err(plain_diagnostic(DiagnosticKind::DeriveOnUnnamedVariant, v.span)),
    }
}

/// The accessors of the cases of a type, in order; the error of the first case that has one.
pub open spec fn all_case_accessors(owner: Seq<char>, variants: Seq<VariantView>) -> Result<
    Seq<UnitAccessorsView>,
    DiagnosticView,
>
    decreases variants.len(),
{
    if variants.len() == 0 {
        Ok(Seq::empty())
    } else {
        match all_case_accessors(owner, variants.drop_last()) {
            Ok(units) => match case_accessors_spec(owner, variants.last()) {
                Ok(unit) => Ok(units.push(unit)),
                Err(d) => Err(d),
            },
            Err(d) => Err(d),
        }
    }
}

/// The plan for a tagged-variant type: every case must have named fields (the
/// first that has none is the error); then each case gets its accessors. In
/// each case the field that carries the cause is planned whatever its
/// declared type is; in the text of the implementation it is handed to the
/// resolvers, which decide by its type of which sort the cause is
/// (`arm_text`).
pub open spec fn generate_enum_impl_spec(
    name: Seq<char>,
    variants: Seq<VariantView>,
    crate_path: Seq<char>,
    generics: GenericsView,
    alloc: bool,
) -> Result<StackErrorImplView, DiagnosticView> {
    match first_unnamed(variants, 0) {
        Some(k) => Err(plain_diagnostic(DiagnosticKind::DeriveOnUnnamedVariant, variants[k].span)),
        None => match all_case_accessors(name, variants) {
            Ok(units) => Ok(
                StackErrorImplView {
                    target: name,
                    crate_path,
                    generics,
                    units,
                    has_stack_source: any_source(units),
                    boxed: boxed_stack_error_impl_spec(generics, alloc),
                },
            ),
            Err(d) => Err(d),
        },
    }
}

/// Plans the capability implementation of a tagged-variant type.
pub fn generate_enum_impl(
    name: &String,
    variants: &Vec<VariantDescriptor>,
    crate_path: &str,
    generics: &Generics,
    alloc: bool,
) -> (r: Result<StackErrorImpl, DefinitionError>)
    ensures
        match generate_enum_impl_spec(
            name@,
            variants.deep_view(),
            crate_path@,
            generics.deep_view(),
            alloc,
        ) {
            Ok(plan) => r matches Ok(p) && p.deep_view() == plan,
            Err(d) => r matches Err(e) && e.deep_view() == seq![d],
        },
{
    // Every case must have named fields.
    let mut k: usize = 0;
    while k < variants.len()
        invariant
            k <= variants.len(),
            first_unnamed(variants.deep_view(), 0) == first_unnamed(variants.deep_view(), k as int),
        decreases variants.len() - k,
    {
        match &variants[k].fields {
            Fields::Named(_) => {},
            _ => {
                return Err(
                    DefinitionError::new(DiagnosticKind::DeriveOnUnnamedVariant, variants[k].span),
                );
            },
        }
        k = k + 1;
    }
    // The accessors of each case.
    let mut units: Vec<UnitAccessors> = Vec::new();
    let mut has_stack_source = false;
    let mut i: usize = 0;
    assert(units.deep_view() =~= Seq::empty());
    while i < variants.len()
        invariant
            i <= variants.len(),
            all_case_accessors(name@, variants.deep_view().take(i as int)) == Ok::<
                Seq<UnitAccessorsView>,
                DiagnosticView,
            >(units.deep_view()),
            has_stack_source == any_source(units.deep_view()),
            first_unnamed(variants.deep_view(), 0) is None,
        decreases variants.len() - i,
    {
        let v = &variants[i];
        proof {
            assert(variants.deep_view().take(i + 1).drop_last() =~= variants.deep_view().take(
                i as int,
            ));
        }
        let outcome = match &v.fields {
            Fields::Named(fields) => {
                let mut label = name.clone();
                label.append("::");
                label.append(v.name.as_str());
                unit_accessors(Some(v.name.clone()), label, fields, v.span)
            },
            _ => Err(DefinitionError::new(DiagnosticKind::DeriveOnUnnamedVariant, v.span)),
        };
        match outcome {
            Ok(unit) => {
                let ghost before = units@;
                if unit.source_field.is_some() {
                    has_stack_source = true;
                }
                units.push(unit);
                proof {
                    lemma_deep_push(before, unit);
                    let old_units = crate::views::deep(before);
                    let new_units = units.deep_view();
                    if any_source(new_units) {
                        let w = choose|w: int|
                            0 <= w < new_units.len() && (#[trigger] new_units[w]).source_field
                                is Some;
                        if w < old_units.len() {
                            assert(old_units[w].source_field is Some);
                        }
                    }
                    if any_source(old_units) {
                        let w = choose|w: int|
                            0 <= w < old_units.len() && (#[trigger] old_units[w]).source_field
                                is Some;
                        assert(new_units[w].source_field is Some);
                    }
                    if unit.source_field is Some {
                        assert(new_units[new_units.len() - 1].source_field is Some);
                    }
                }
            },
            Err(e) => {
                proof {
                    lemma_case_error_stays(name@, variants.deep_view(), i + 1);
                }
                return Err(e);
            },
        }
        i = i + 1;
    }
    assert(variants.deep_view().take(variants.len() as int) =~= variants.deep_view());
    Ok(
        StackErrorImpl {
            target: name.clone(),
            crate_path: crate_path.to_owned(),
            generics: clone_generics(generics),
            units,
            has_stack_source,
            boxed: boxed_stack_error_impl(generics, alloc),
        },
    )
}

/// An error among the first `n` cases is the error of all the cases.
pub proof fn lemma_case_error_stays(owner: Seq<char>, variants: Seq<VariantView>, n: int)
    requires
        0 <= n <= variants.len(),
        all_case_accessors(owner, variants.take(n)) is Err,
    ensures
        all_case_accessors(owner, variants) == all_case_accessors(owner, variants.take(n)),
    decreases variants.len() - n,
{
    if n < variants.len() {
        assert(variants.take(n + 1).drop_last() =~= variants.take(n));
        lemma_case_error_stays(owner, variants, n + 1);
    } else {
        assert(variants.take(n) =~= variants);
    }
}

/// The plan of the capability implementation of a definition: a record needs
/// named fields, a union gets none.
pub open spec fn stack_error_impl_spec(item: SchemaItemView, crate_path: Seq<char>, alloc: bool)
    -> Result<StackErrorImplView, DiagnosticView> {
    match item.body {
        ItemBodyView::Struct { fields: FieldsView::Named(fields), fields_span } =>
            generate_struct_impl_spec(
                item.name,
                fields,
                fields_span,
                crate_path,
                item.generics,
                alloc,
            ),
        ItemBodyView::Struct { fields: _, fields_span } => Err(
            plain_diagnostic(DiagnosticKind::DeriveOnUnnamedStruct, fields_span),
        ),
        ItemBodyView::Enum(variants) => generate_enum_impl_spec(
            item.name,
            variants,
            crate_path,
            item.generics,
            alloc,
        ),
        ItemBodyView::Union => Err(plain_diagnostic(DiagnosticKind::DeriveOnUnion, item.name_span)),
    }
}

/// Plans the capability implementation of a definition. `alloc` says whether
/// the tier in use has the type-erasure wrapper.
pub fn stack_error_impl(item: &SchemaItem, crate_path: &str, alloc: bool) -> (r: Result<
    StackErrorImpl,
    DefinitionError,
>)
    ensures
        match stack_error_impl_spec(item.deep_view(), crate_path@, alloc) {
            Ok(plan) => r matches Ok(p) && p.deep_view() == plan,
            Err(d) => r matches Err(e) && e.deep_view() == seq![d],
        },
{
    match &item.body {
        ItemBody::Struct { fields, fields_span } => match fields {
            Fields::Named(named) => generate_struct_impl(
                &item.name,
                named,
                *fields_span,
                crate_path,
                &item.generics,
                alloc,
            ),
            _ => Err(DefinitionError::new(DiagnosticKind::DeriveOnUnnamedStruct, *fields_span)),
        },
        ItemBody::Enum(variants) => generate_enum_impl(
            &item.name,
            variants,
            crate_path,
            &item.generics,
            alloc,
        ),
        ItemBody::Union => Err(DefinitionError::new(DiagnosticKind::DeriveOnUnion, item.name_span)),
    }
}

/// The four accessors of the capability.
#[derive(Clone, Copy, Debug, PartialEq, Eq, Structural)]
pub enum Accessor {
    Location,
    TypeLabel,
    StackSource,
    PlainSource,
}

/// The pattern that matches a unit: `Self` for a record, `Self::Case` for a case.
pub open spec fn unit_pattern(unit: UnitAccessorsView) -> Seq<char> {
    match unit.case {
        Some(case) => "Self::"@ + case,
        None => "Self"@,
    }
}

/// The arm with which a unit hands the field `field` to the resolver of
/// causes with the capability.
pub open spec fn stack_resolver_arm(pattern: Seq<char>, field: Seq<char>, crate_path: Seq<char>)
    -> Seq<char> {
    pattern + " { "@ + field + ": cause, .. } => "@ + crate_path
        + "::StackSourceResolver(cause).resolve(), "@
}

/// The arm with which a unit hands the field `field` to the resolver of
/// plain causes.
pub open spec fn plain_resolver_arm(pattern: Seq<char>, field: Seq<char>, crate_path: Seq<char>)
    -> Seq<char> {
    pattern + " { "@ + field + ": cause, .. } => "@ + crate_path + "::PlainSourceResolver("@
        + crate_path + "::PlainSourceFallback(cause)).resolve(), "@
}

/// The match arm of `accessor` for one unit.
///
/// A unit with a field that carries the cause hands that field to the two
/// resolvers, whatever its declared type is. Of these, the first hands the
/// cause out where its type has the capability, and the second hands it out
/// as a plain error where its type has none; so the cause of a unit is shown
/// with its type and location exactly where it has them. A unit without such
/// a field hands out no cause.
pub open spec fn arm_text(unit: UnitAccessorsView, accessor: Accessor, crate_path: Seq<char>)
    -> Seq<char> {
    match accessor {
        Accessor::Location => unit_pattern(unit) + " { "@ + unit.location_field
            + ": at, .. } => ::core::borrow::Borrow::borrow(at), "@,
        Accessor::TypeLabel => unit_pattern(unit) + " { .. } => \""@ + unit.type_label + "\", "@,
        Accessor::StackSource => match unit.source_field {
            Some(field) => stack_resolver_arm(unit_pattern(unit), field, crate_path),
            None => unit_pattern(unit) + " { .. } => ::core::option::Option::None, "@,
        },
        Accessor::PlainSource => match unit.source_field {
            Some(field) => plain_resolver_arm(unit_pattern(unit), field, crate_path),
            None => unit_pattern(unit) + " { .. } => ::core::option::Option::None, "@,
        },
    }
}

/// The match arms of `accessor` for the units of a plan, in order.
pub open spec fn arms_text(
    units: Seq<UnitAccessorsView>,
    accessor: Accessor,
    crate_path: Seq<char>,
) -> Seq<char>
    decreases units.len(),
{
    if units.len() == 0 {
        Seq::empty()
    } else {
        arms_text(units.drop_last(), accessor, crate_path) + arm_text(
            units.last(),
            accessor,
            crate_path,
        )
    }
}

/// Each predicate followed by `, `.
pub open spec fn predicates_text(predicates: Seq<Seq<char>>) -> Seq<char>
    decreases predicates.len(),
{
    if predicates.len() == 0 {
        Seq::empty()
    } else {
        predicates_text(predicates.drop_last()) + predicates.last() + ", "@
    }
}

/// The `where` clause of the implementation: that of the type.
pub open spec fn where_text(generics: GenericsView) -> Seq<char> {
    match generics.where_predicates {
        Some(predicates) => " where "@ + predicates_text(predicates),
        None => Seq::empty(),
    }
}

/// The conversion into the type-erasure wrapper, as source text.
pub open spec fn boxed_text(plan: StackErrorImplView) -> Seq<char> {
    match plan.boxed {
        Some(conversion) => " impl"@ + plan.generics.impl_generics + " ::core::convert::From<"@
            + plan.target + plan.generics.ty_generics + "> for "@ + plan.crate_path
            + "::BoxedStackError where "@ + predicates_text(conversion.predicates) + plan.target
            + plan.generics.ty_generics + ": "@ + plan.crate_path
            + "::StackError + Send + Sync + 'static { fn from(error: "@ + plan.target
            + plan.generics.ty_generics + ") -> Self { "@ + plan.crate_path
            + "::BoxedStackError::new(error) } }"@,
        None => Seq::empty(),
    }
}

/// The implementation of the capability that a plan stands for, as source
/// text: the four accessors and the message, each accessor a match with one
/// arm per unit, and the conversion into the type-erasure wrapper behind them.
///
/// Both cause accessors are always written, whether or not a unit has a
/// cause: the capability has no accessor with a default, so an implementation
/// without them would not be one. Where no unit has a cause, every arm of
/// both hands out no cause. `has_stack_source` is not read.
///
/// The text names what it uses by the crate of the plan: the capability, the
/// location it hands out (`location::Location`), the type-erasure wrapper,
/// the plain error, and the resolvers `StackSourceResolver` and
/// `PlainSourceResolver` with `PlainSourceFallback`, which decide by the type
/// of a cause of which sort it is. A location field may have any type from
/// which a location can be borrowed, and the type itself must be able to show
/// its message.
pub open spec fn render_spec(plan: StackErrorImplView) -> Seq<char> {
    "impl"@ + plan.generics.impl_generics + " "@ + plan.crate_path + "::StackError for "@
        + plan.target + plan.generics.ty_generics + where_text(plan.generics)
        + " { fn location(&self) -> &"@ + plan.crate_path + "::location::Location { match self { "@
        + arms_text(plan.units, Accessor::Location, plan.crate_path)
        + "} } fn type_label(&self) -> &'static str { match self { "@ + arms_text(
        plan.units,
        Accessor::TypeLabel,
        plan.crate_path,
    )
        + "} } fn message(&self) -> ::std::string::String { ::std::string::ToString::to_string(self) } fn stack_source(&self) -> ::core::option::Option<"@
        + plan.crate_path + "::BoxedStackError> { match self { "@ + arms_text(
        plan.units,
        Accessor::StackSource,
        plan.crate_path,
    ) + "} } fn plain_source(&self) -> ::core::option::Option<"@ + plan.crate_path
        + "::PlainError> { match self { "@ + arms_text(
        plan.units,
        Accessor::PlainSource,
        plan.crate_path,
    ) + "} } }"@ + boxed_text(plan)
}

fn push_pattern(out: &mut String, unit: &UnitAccessors)
    ensures
        final(out)@ == old(out)@ + unit_pattern(unit.deep_view()),
{
    match &unit.case {
        Some(case) => {
            out.append("Self::");
            out.append(case.as_str());
        },
        None => {
            out.append("Self");
        },
    }
}

fn push_arm(out: &mut String, unit: &UnitAccessors, accessor: Accessor, crate_path: &str)
    ensures
        final(out)@ == old(out)@ + arm_text(unit.deep_view(), accessor, crate_path@),
{
    push_pattern(out, unit);
    match accessor {
        Accessor::Location => {
            out.append(" { ");
            out.append(unit.location_field.as_str());
            out.append(": at, .. } => ::core::borrow::Borrow::borrow(at), ");
        },
        Accessor::TypeLabel => {
            out.append(" { .. } => \"");
            out.append(unit.type_label.as_str());
            out.append("\", ");
        },
        Accessor::StackSource => match &unit.source_field {
            Some(field) => {
                out.append(" { ");
                out.append(field.as_str());
                out.append(": cause, .. } => ");
                out.append(crate_path);
                out.append("::StackSourceResolver(cause).resolve(), ");
            },
            None => {
                out.append(" { .. } => ::core::option::Option::None, ");
            },
        },
        Accessor::PlainSource => match &unit.source_field {
            Some(field) => {
                out.append(" { ");
                out.append(field.as_str());
                out.append(": cause, .. } => ");
                out.append(crate_path);
                out.append("::PlainSourceResolver(");
                out.append(crate_path);
                out.append("::PlainSourceFallback(cause)).resolve(), ");
            },
            None => {
                out.append(" { .. } => ::core::option::Option::None, ");
            },
        },
    }
}

fn push_arms(out: &mut String, units: &Vec<UnitAccessors>, accessor: Accessor, crate_path: &str)
    ensures
        final(out)@ == old(out)@ + arms_text(units.deep_view(), accessor, crate_path@),
{
    let ghost start = out@;
    let ghost all = units.deep_view();
    let mut i: usize = 0;
    while i < units.len()
        invariant
            i <= units.len(),
            all == units.deep_view(),
            out@ == start + arms_text(all.take(i as int), accessor, crate_path@),
        decreases units.len() - i,
    {
        proof {
            assert(all.take(i + 1).drop_last() =~= all.take(i as int));
        }
        push_arm(out, &units[i], accessor, crate_path);
        i = i + 1;
    }
    assert(all.take(units.len() as int) =~= all);
}

fn push_predicates(out: &mut String, predicates: &Vec<String>)
    ensures
        final(out)@ == old(out)@ + predicates_text(predicates.deep_view()),
{
    let ghost start = out@;
    let ghost all = predicates.deep_view();
    let mut i: usize = 0;
    while i < predicates.len()
        invariant
            i <= predicates.len(),
            all == predicates.deep_view(),
            out@ == start + predicates_text(all.take(i as int)),
        decreases predicates.len() - i,
    {
        proof {
            assert(all.take(i + 1).drop_last() =~= all.take(i as int));
        }
        out.append(predicates[i].as_str());
        out.append(", ");
        i = i + 1;
    }
    assert(all.take(predicates.len() as int) =~= all);
}

fn push_boxed(out: &mut String, plan: &StackErrorImpl)
    ensures
        final(out)@ == old(out)@ + boxed_text(plan.deep_view()),
{
    match &plan.boxed {
        Some(conversion) => {
            out.append(" impl");
            out.append(plan.generics.impl_generics.as_str());
            out.append(" ::core::convert::From<");
            out.append(plan.target.as_str());
            out.append(plan.generics.ty_generics.as_str());
            out.append("> for ");
            out.append(plan.crate_path.as_str());
            out.append("::BoxedStackError where ");
            push_predicates(out, &conversion.predicates);
            out.append(plan.target.as_str());
            out.append(plan.generics.ty_generics.as_str());
            out.append(": ");
            out.append(plan.crate_path.as_str());
            out.append("::StackError + Send + Sync + 'static { fn from(error: ");
            out.append(plan.target.as_str());
            out.append(plan.generics.ty_generics.as_str());
            out.append(") -> Self { ");
            out.append(plan.crate_path.as_str());
            out.append("::BoxedStackError::new(error) } }");
        },
        None => {},
    }
}

/// Writes the implementation that a plan stands for as source text.
pub fn render(plan: &StackErrorImpl) -> (text: String)
    ensures
        text@ == render_spec(plan.deep_view()),
{
    let crate_path = plan.crate_path.as_str();
    let mut text = "impl".to_owned();
    text.append(plan.generics.impl_generics.as_str());
    text.append(" ");
    text.append(crate_path);
    text.append("::StackError for ");
    text.append(plan.target.as_str());
    text.append(plan.generics.ty_generics.as_str());
    match &plan.generics.where_predicates {
        Some(predicates) => {
            text.append(" where ");
            push_predicates(&mut text, predicates);
        },
        None => {},
    }
    text.append(" { fn location(&self) -> &");
    text.append(crate_path);
    text.append("::location::Location { match self { ");
    push_arms(&mut text, &plan.units, Accessor::Location, crate_path);
    text.append("} } fn type_label(&self) -> &'static str { match self { ");
    push_arms(&mut text, &plan.units, Accessor::TypeLabel, crate_path);
    text.append(
        "} } fn message(&self) -> ::std::string::String { ::std::string::ToString::to_string(self) } fn stack_source(&self) -> ::core::option::Option<",
    );
    text.append(crate_path);
    text.append("::BoxedStackError> { match self { ");
    push_arms(&mut text, &plan.units, Accessor::StackSource, crate_path);
    text.append("} } fn plain_source(&self) -> ::core::option::Option<");
    text.append(crate_path);
    text.append("::PlainError> { match self { ");
    push_arms(&mut text, &plan.units, Accessor::PlainSource, crate_path);
    text.append("} } }");
    push_boxed(&mut text, plan);
    text
}

/// In the implementation of a record with a field that carries the cause,
/// both cause accessors hand that field to their resolver, whatever the
/// declared type of the field is.
pub proof fn lemma_record_cause_is_resolved(
    name: Seq<char>,
    fields: Seq<FieldView>,
    fields_span: u64,
    crate_path: Seq<char>,
    generics: GenericsView,
    alloc: bool,
    j: int,
)
    requires
        generate_struct_impl_spec(name, fields, fields_span, crate_path, generics, alloc) is Ok,
        find_source_field_spec(fields) == Some(j),
    ensures
        generate_struct_impl_spec(name, fields, fields_span, crate_path, generics, alloc)
            matches Ok(plan) && plan.has_stack_source && arms_text(
            plan.units,
            Accessor::StackSource,
            crate_path,
        ) == stack_resolver_arm("Self"@, fields[j].name, crate_path) && arms_text(
            plan.units,
            Accessor::PlainSource,
            crate_path,
        ) == plain_resolver_arm("Self"@, fields[j].name, crate_path),
{
    let plan = generate_struct_impl_spec(name, fields, fields_span, crate_path, generics, alloc)->Ok_0;
    assert(plan.units.drop_last() =~= Seq::<UnitAccessorsView>::empty());
    assert(arms_text(plan.units.drop_last(), Accessor::StackSource, crate_path)
        =~= Seq::<char>::empty());
    assert(arms_text(plan.units.drop_last(), Accessor::PlainSource, crate_path)
        =~= Seq::<char>::empty());
    assert(arms_text(plan.units, Accessor::StackSource, crate_path) =~= stack_resolver_arm(
        "Self"@,
        fields[j].name,
        crate_path,
    ));
    assert(arms_text(plan.units, Accessor::PlainSource, crate_path) =~= plain_resolver_arm(
        "Self"@,
        fields[j].name,
        crate_path,
    ));
}

/// The accessors of the cases of a type are those of each case, in order.
pub proof fn lemma_case_accessors_by_case(
    owner: Seq<char>,
    variants: Seq<VariantView>,
    units: Seq<UnitAccessorsView>,
)
    requires
        all_case_accessors(owner, variants) == Ok::<Seq<UnitAccessorsView>, DiagnosticView>(units),
    ensures
        units.len() == variants.len(),
        forall|k: int|
            0 <= k < variants.len() ==> case_accessors_spec(owner, #[trigger] variants[k]) == Ok::<
                UnitAccessorsView,
                DiagnosticView,
            >(units[k]),
    decreases variants.len(),
{
    if variants.len() > 0 {
        let before = all_case_accessors(owner, variants.drop_last())->Ok_0;
        lemma_case_accessors_by_case(owner, variants.drop_last(), before);
        assert forall|k: int| 0 <= k < variants.len() implies case_accessors_spec(
            owner,
            #[trigger] variants[k],
        ) == Ok::<UnitAccessorsView, DiagnosticView>(units[k]) by {
            if k < variants.len() - 1 {
                assert(variants.drop_last()[k] == variants[k]);
                assert(units[k] == before[k]);
            }
        }
    }
}

/// In the implementation of a tagged-variant type, every case with a field
/// that carries the cause hands that field to the resolvers from both cause
/// accessors, whatever the declared type of the field is; a case without
/// one hands out no cause.
pub proof fn lemma_case_cause_is_resolved(
    name: Seq<char>,
    variants: Seq<VariantView>,
    crate_path: Seq<char>,
    generics: GenericsView,
    alloc: bool,
    k: int,
    fields: Seq<FieldView>,
)
    requires
        generate_enum_impl_spec(name, variants, crate_path, generics, alloc) is Ok,
        0 <= k < variants.len(),
        variants[k].fields == FieldsView::Named(fields),
    ensures
        ({
            let plan = generate_enum_impl_spec(name, variants, crate_path, generics, alloc)->Ok_0;
            let pattern = "Self::"@ + variants[k].name;
            &&& plan.units.len() == variants.len()
            &&& match find_source_field_spec(fields) {
                Some(j) => {
                    &&& plan.has_stack_source
                    &&& arm_text(plan.units[k], Accessor::StackSource, crate_path)
                        == stack_resolver_arm(pattern, fields[j].name, crate_path)
                    &&& arm_text(plan.units[k], Accessor::PlainSource, crate_path)
                        == plain_resolver_arm(pattern, fields[j].name, crate_path)
                },
                None => {
                    &&& arm_text(plan.units[k], Accessor::StackSource, crate_path) == pattern
                        + " { .. } => ::core::option::Option::None, "@
                    &&& arm_text(plan.units[k], Accessor::PlainSource, crate_path) == pattern
                        + " { .. } => ::core::option::Option::None, "@
                },
            }
        }),
{
    let plan = generate_enum_impl_spec(name, variants, crate_path, generics, alloc)->Ok_0;
    lemma_case_accessors_by_case(name, variants, plan.units);
    assert(case_accessors_spec(name, variants[k]) == Ok::<UnitAccessorsView, DiagnosticView>(
        plan.units[k],
    ));
}

} // verus!
