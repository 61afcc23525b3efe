//! The pass that settles the roles of every unit of a definition, and gives
//! a location field to each unit that has none.

use vstd::prelude::*;
use crate::derive::{
    all_case_accessors, case_label, clone_generics, first_unnamed, is_named,
    stack_error_impl_spec, unit_accessors_spec,
};
use crate::diagnostic::{plain_diagnostic, DefinitionError, DiagnosticKind, DiagnosticView};
use crate::helper::{
    lemma_settled_unit_has_one_location, lemma_settling_adds_no_fault, resolve_location_spec,
    resolve_roles, resolve_roles_spec,
};
use crate::schema::{
    clone_annotations, clone_fields, FieldDescriptor, FieldView, Fields, FieldsView, ItemBody,
    ItemBodyView, ResolvedRoles, SchemaItem, SchemaItemView, VariantDescriptor, VariantView,
};
use crate::views::lemma_deep_push;

verus! {

/// One case with settled roles: a case without a field list gets an empty
/// list of named fields first; positional fields are an error.
pub open spec fn locate_variant(v: VariantView, crate_path: Seq<char>) -> Result<
    (VariantView, ResolvedRoles),
    DiagnosticView,
> {
    match v.fields {
        FieldsView::Named(fields) => match resolve_roles_spec(fields, crate_path, v.span) {
            Ok((roles, after)) => Ok((VariantView { fields: FieldsView::Named(after), ..v }, roles)),
            Err(d) => Err(d),
        },
        FieldsView::Unit => match resolve_roles_spec(Seq::empty(), crate_path, v.span) {
            Ok((roles, after)) => Ok((VariantView { fields: FieldsView::Named(after), ..v }, roles)),
            Err(d) => Err(d),
        },
        FieldsView::Unnamed => Err(
            plain_diagnostic(DiagnosticKind::LocationOnUnnamedVariant, v.span),
        ),
    }
}

/// The cases of a type with settled roles, in order; the error of the first
/// case that has one.
pub open spec fn locate_variants(variants: Seq<VariantView>, crate_path: Seq<char>) -> Result<
    (Seq<VariantView>, Seq<ResolvedRoles>),
    DiagnosticView,
>
    decreases variants.len(),
{
    if variants.len() == 0 {
        Ok((Seq::empty(), Seq::empty()))
    } else {
        match locate_variants(variants.drop_last(), crate_path) {
            Ok((done, roles)) => match locate_variant(variants.last(), crate_path) {
                Ok((v, r)) => Ok((done.push(v), roles.push(r))),
                Err(d) => Err(d),
            },
            Err(d) => Err(d),
        }
    }
}

/// An error among the first `n` cases is the error of all the cases.
pub proof fn lemma_locate_error_stays(variants: Seq<VariantView>, crate_path: Seq<char>, n: int)
    requires
        0 <= n <= variants.len(),
        locate_variants(variants.take(n), crate_path) is Err,
    ensures
        locate_variants(variants, crate_path) == locate_variants(variants.take(n), crate_path),
    decreases variants.len() - n,
{
    if n < variants.len() {
        assert(variants.take(n + 1).drop_last() =~= variants.take(n));
        lemma_locate_error_stays(variants, crate_path, n + 1);
    } else {
        assert(variants.take(n) =~= variants);
    }
}

/// A definition with the roles of all its units settled, and those roles: one
/// for a record, one per case otherwise. A record needs named fields; a union
/// is an error.
pub open spec fn suzunari_location_impl_spec(item: SchemaItemView, crate_path: Seq<char>)
    -> Result<(SchemaItemView, Seq<ResolvedRoles>), DiagnosticView> {
    match item.body {
        ItemBodyView::Struct { fields: FieldsView::Named(fields), fields_span } =>
            match resolve_roles_spec(fields, crate_path, fields_span) {
                Ok((roles, after)) => Ok(
                    (
                        SchemaItemView {
                            body: ItemBodyView::Struct {
                                fields: FieldsView::Named(after),
                                fields_span,
                            },
                            ..item
                        },
                        seq![roles],
                    ),
                ),
                Err(d) => Err(d),
            },
        ItemBodyView::Struct { fields: _, fields_span } => Err(
            plain_diagnostic(DiagnosticKind::LocationOnUnnamedStruct, fields_span),
        ),
        ItemBodyView::Enum(variants) => match locate_variants(variants, crate_path) {
            Ok((new_variants, roles)) => Ok(
                (SchemaItemView { body: ItemBodyView::Enum(new_variants), ..item }, roles),
            ),
            Err(d) => Err(d),
        },
        ItemBodyView::Union => Err(plain_diagnostic(DiagnosticKind::LocationOnUnion, item.span)),
    }
}

/// Settles the roles of every unit of a definition.
pub fn suzunari_location_impl(item: &SchemaItem, crate_path: &str) -> (r: Result<
    (SchemaItem, Vec<ResolvedRoles>),
    DefinitionError,
>)
    ensures
        match suzunari_location_impl_spec(item.deep_view(), crate_path@) {
            Ok((new_item, roles)) => r matches Ok(pair) && pair.0.deep_view() == new_item
                && pair.1@ == roles,
            Err(d) => r matches Err(e) && e.deep_view() == seq![d],
        },
{
    match &item.body {
        ItemBody::Struct { fields, fields_span } => match fields {
            Fields::Named(named) => {
                let mut settled = clone_fields(named);
                let roles = match resolve_roles(&mut settled, crate_path, *fields_span) {
                    Ok(roles) => roles,
                    Err(e) => {
                        return Err(e);
                    },
                };
                let mut all_roles: Vec<ResolvedRoles> = Vec::new();
                all_roles.push(roles);
                Ok(
                    (
                        SchemaItem {
                            name: item.name.clone(),
                            name_span: item.name_span,
                            attrs: clone_annotations(&item.attrs),
                            generics: clone_generics(&item.generics),
                            body: ItemBody::Struct {
                                fields: Fields::Named(settled),
                                fields_span: *fields_span,
                            },
                            span: item.span,
                        },
                        all_roles,
                    ),
                )
            },
            _ => Err(DefinitionError::new(DiagnosticKind::LocationOnUnnamedStruct, *fields_span)),
        },
        ItemBody::Enum(variants) => {
            let ghost all = variants.deep_view();
            let mut all_roles: Vec<ResolvedRoles> = Vec::new();
            let mut new_variants: Vec<VariantDescriptor> = Vec::new();
            let mut i: usize = 0;
            assert(new_variants.deep_view() =~= Seq::empty());
            while i < variants.len()
                invariant
                    i <= variants.len(),
                    all == variants.deep_view(),
                    item.deep_view().body == ItemBodyView::Enum(all),
                    locate_variants(all.take(i as int), crate_path@) == Ok::<
                        (Seq<VariantView>, Seq<ResolvedRoles>),
                        DiagnosticView,
                    >((new_variants.deep_view(), all_roles@)),
                decreases variants.len() - i,
            {
                let v = &variants[i];
                proof {
                    assert(all.take(i + 1).drop_last() =~= all.take(i as int));
                }
                let ghost before = new_variants@;
                let mut settled = match &v.fields {
                    Fields::Named(named) => clone_fields(named),
                    Fields::Unit => {
                        let none: Vec<FieldDescriptor> = Vec::new();
                        assert(none.deep_view() =~= Seq::<FieldView>::empty());
                        none
                    },
                    Fields::Unnamed => {
                        proof {
                            lemma_locate_error_stays(all, crate_path@, i + 1);
                        }
                        return Err(
                            DefinitionError::new(DiagnosticKind::LocationOnUnnamedVariant, v.span),
                        );
                    },
                };
                let roles = match resolve_roles(&mut settled, crate_path, v.span) {
                    Ok(roles) => roles,
                    Err(e) => {
                        proof {
                            lemma_locate_error_stays(all, crate_path@, i + 1);
                        }
                        return Err(e);
                    },
                };
                let new_v = VariantDescriptor {
                    name: v.name.clone(),
                    attrs: clone_annotations(&v.attrs),
                    fields: Fields::Named(settled),
                    span: v.span,
                };
                new_variants.push(new_v);
                all_roles.push(roles);
                proof {
                    lemma_deep_push(before, new_v);
                }
                i = i + 1;
            }
            assert(all.take(variants.len() as int) =~= all);
            Ok(
                (
                    SchemaItem {
                        name: item.name.clone(),
                        name_span: item.name_span,
                        attrs: clone_annotations(&item.attrs),
                        generics: clone_generics(&item.generics),
                        body: ItemBody::Enum(new_variants),
                        span: item.span,
                    },
                    all_roles,
                ),
            )
        },
        ItemBody::Union => Err(DefinitionError::new(DiagnosticKind::LocationOnUnion, item.span)),
    }
}

/// Where the roles of a unit are settled, the accessors of the unit can be
/// planned, and the location accessor reads the settled field.
pub proof fn lemma_settled_unit_is_planned(
    case: Option<Seq<char>>,
    label: Seq<char>,
    fields: Seq<FieldView>,
    crate_path: Seq<char>,
    span: u64,
    roles: ResolvedRoles,
    after: Seq<FieldView>,
    plan_span: u64,
)
    requires
        resolve_roles_spec(fields, crate_path, span) == Ok::<
            (ResolvedRoles, Seq<FieldView>),
            DiagnosticView,
        >((roles, after)),
    ensures
        resolve_location_spec(fields, crate_path, span) matches Ok(settled)
            && unit_accessors_spec(case, label, after, plan_span) matches Ok(unit)
            && unit.location_field == after[settled.0].name,
{
    let settled = resolve_location_spec(fields, crate_path, span)->Ok_0;
    lemma_settled_unit_has_one_location(fields, crate_path, span, settled.0, after);
    lemma_settling_adds_no_fault(fields, crate_path, span, settled.0, after);
}

/// Whether the fields of every case are named.
pub open spec fn all_named(variants: Seq<VariantView>) -> bool {
    forall|k: int| 0 <= k < variants.len() ==> is_named(#[trigger] variants[k])
}

/// Among cases that all have named fields, none is found that has not.
pub proof fn lemma_no_unnamed(variants: Seq<VariantView>, from: int)
    requires
        0 <= from,
        all_named(variants),
    ensures
        first_unnamed(variants, from) is None,
    decreases variants.len() - from,
{
    if from < variants.len() {
        assert(is_named(variants[from]));
        lemma_no_unnamed(variants, from + 1);
    }
}

/// Where the roles of all cases are settled, every case has named fields and
/// gets its accessors.
pub proof fn lemma_settled_cases_are_planned(
    owner: Seq<char>,
    variants: Seq<VariantView>,
    crate_path: Seq<char>,
    done: Seq<VariantView>,
    roles: Seq<ResolvedRoles>,
)
    requires
        locate_variants(variants, crate_path) == Ok::<
            (Seq<VariantView>, Seq<ResolvedRoles>),
            DiagnosticView,
        >((done, roles)),
    ensures
        done.len() == variants.len(),
        roles.len() == variants.len(),
        all_named(done),
        all_case_accessors(owner, done) matches Ok(units) && units.len() == done.len(),
    decreases variants.len(),
{
    if variants.len() > 0 {
        let before = locate_variants(variants.drop_last(), crate_path)->Ok_0;
        let last = locate_variant(variants.last(), crate_path)->Ok_0;
        lemma_settled_cases_are_planned(owner, variants.drop_last(), crate_path, before.0, before.1);
        assert(done == before.0.push(last.0));
        assert(done.drop_last() =~= before.0);
        let v = variants.last();
        let fields = match v.fields {
            FieldsView::Named(fields) => fields,
            _ => Seq::empty(),
        };
        let settled = resolve_roles_spec(fields, crate_path, v.span)->Ok_0;
        lemma_settled_unit_is_planned(
            Some(v.name),
            case_label(owner, v.name),
            fields,
            crate_path,
            v.span,
            settled.0,
            settled.1,
            v.span,
        );
        assert(last.0.fields == FieldsView::Named(settled.1));
        assert forall|k: int| 0 <= k < done.len() implies is_named(#[trigger] done[k]) by {
            if k < before.0.len() {
                assert(done[k] == before.0[k]);
            }
        }
    }
}

/// A definition whose roles are settled gets the plan of its capability
/// implementation, with the accessors of each of its units: what the
/// settling pass hands on is never refused for want of a location field.
pub proof fn lemma_settled_item_is_planned(
    item: SchemaItemView,
    crate_path: Seq<char>,
    alloc: bool,
    settled: SchemaItemView,
    roles: Seq<ResolvedRoles>,
)
    requires
        suzunari_location_impl_spec(item, crate_path) == Ok::<
            (SchemaItemView, Seq<ResolvedRoles>),
            DiagnosticView,
        >((settled, roles)),
    ensures
        stack_error_impl_spec(settled, crate_path, alloc) matches Ok(plan) && plan.units.len()
            == roles.len() && plan.target == item.name,
{
    match item.body {
        ItemBodyView::Struct { fields: FieldsView::Named(fields), fields_span } => {
            let unit = resolve_roles_spec(fields, crate_path, fields_span)->Ok_0;
            lemma_settled_unit_is_planned(
                None,
                item.name,
                fields,
                crate_path,
                fields_span,
                unit.0,
                unit.1,
                fields_span,
            );
        },
        ItemBodyView::Enum(variants) => {
            let located = locate_variants(variants, crate_path)->Ok_0;
            lemma_settled_cases_are_planned(item.name, variants, crate_path, located.0, located.1);
            lemma_no_unnamed(located.0, 0);
        },
        _ => {},
    }
}

} // verus!
