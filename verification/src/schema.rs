//! The schema of an error type as the definition-time passes read it:
//! plain values for annotations, types, fields and cases, each with the
//! mathematical view that the contracts speak of.

use vstd::prelude::*;
use quote::ToTokens;
use syn::parse::Parser;
use syn::punctuated::Punctuated;
use syn::token::Comma;
use syn::Meta;

verus! {

/// The three shapes an annotation, or an item of its argument list, can take.
#[derive(Clone, Copy, Debug, PartialEq, Eq, Structural)]
pub enum MetaForm {
    /// A bare path: `location`.
    Path,
    /// A path with delimited arguments: `display("...")`.
    List,
    /// A path with a value: `visibility = "pub"`.
    NameValue,
}

/// One item of an annotation's argument list.
#[derive(Debug, PartialEq, Eq)]
pub struct Directive {
    /// The leading identifier, when the item's path is a single identifier.
    pub head: Option<String>,
    pub form: MetaForm,
    /// The tokens between the delimiters of a `List`; empty otherwise.
    pub args: String,
    /// The tokens of the whole item, as they are forwarded.
    pub text: String,
    /// Where the item is written.
    pub span: u64,
}

/// What a `Directive` holds, as the contracts see it.
pub struct DirectiveView {
    pub head: Option<Seq<char>>,
    pub form: MetaForm,
    pub args: Seq<char>,
    pub text: Seq<char>,
    pub span: u64,
}

impl DeepView for Directive {
    type V = DirectiveView;

    open spec fn deep_view(&self) -> DirectiveView {
        DirectiveView {
            head: self.head.deep_view(),
            form: self.form,
            args: self.args@,
            text: self.text@,
            span: self.span,
        }
    }
}

/// The argument list of an annotation, as far as it could be read.
#[derive(Debug, PartialEq, Eq)]
pub enum ArgumentList {
    /// The annotation has no delimited argument list.
    Absent,
    /// The items of the list, in the order in which they are written.
    Items(Vec<Directive>),
    /// The list is no list of directives; the parser's words say why.
    Malformed(String),
}

/// What an `ArgumentList` holds, as the contracts see it.
pub enum ArgumentListView {
    Absent,
    Items(Seq<DirectiveView>),
    Malformed(Seq<char>),
}

impl DeepView for ArgumentList {
    type V = ArgumentListView;

    open spec fn deep_view(&self) -> ArgumentListView {
        match self {
            ArgumentList::Absent => ArgumentListView::Absent,
            ArgumentList::Items(items) => ArgumentListView::Items(items.deep_view()),
            ArgumentList::Malformed(why) => ArgumentListView::Malformed(why@),
        }
    }
}

impl ArgumentList {
    /// The argument list that a reading of its tokens came to: the items
    /// where it gave any, and the parser's words where it failed.
    pub fn from_outcome(outcome: Result<Vec<Directive>, String>) -> (list: ArgumentList)
        ensures
            match outcome {
                Ok(items) => list == ArgumentList::Items(items),
                Err(why) => list == ArgumentList::Malformed(why),
            },
    {
        match outcome {
            Ok(items) => ArgumentList::Items(items),
            Err(why) => ArgumentList::Malformed(why),
        }
    }
}

/// One annotation attached to a type, a case or a field.
#[derive(Debug, PartialEq, Eq)]
pub struct Annotation {
    /// The annotation's name, when its path is a single identifier.
    pub family: Option<String>,
    pub list: ArgumentList,
    /// The tokens of the whole annotation, without `#[` and `]`.
    pub text: String,
    /// Where the annotation is written.
    pub span: u64,
}

/// What an `Annotation` holds, as the contracts see it.
pub struct AnnotationView {
    pub family: Option<Seq<char>>,
    pub list: ArgumentListView,
    pub text: Seq<char>,
    pub span: u64,
}

impl DeepView for Annotation {
    type V = AnnotationView;

    open spec fn deep_view(&self) -> AnnotationView {
        AnnotationView {
            family: self.family.deep_view(),
            list: self.list.deep_view(),
            text: self.text@,
            span: self.span,
        }
    }
}

/// Whether an item is as a reading leaves it: only an item with a delimited
/// list has tokens between delimiters.
pub open spec fn as_read(d: DirectiveView) -> bool {
    d.form != MetaForm::List ==> d.args.len() == 0
}

/// Whether every item of a list is as a reading leaves it.
pub open spec fn all_as_read(list: ArgumentListView) -> bool {
    match list {
        ArgumentListView::Items(items) => forall|k: int|
            0 <= k < items.len() ==> as_read(#[trigger] items[k]),
        _ => true,
    }
}

/// Splits the tokens of an argument list into its items.
///
/// Calls `syn::parse::Parser::parse_str` with `Punctuated::<Meta, Comma>::parse_terminated`,
/// which reads a list of `syn::Meta` parted by commas and wants the whole text read. Each
/// `Meta` found is written down as a `Directive`: the identifier that `Path::get_ident`
/// gives for its path, its variant, the tokens of a `MetaList`, and the tokens of the whole
/// item. Each item gets `span` as its place. A failure is handed on as the words of the
/// `syn::Error`.
///
/// Which items there are, and how their tokens are written as text, is left open: the
/// lexer and the token printer in use decide it. What is claimed holds of every outcome
/// and is what the conversion in the body does: each item is at `span`, and only a
/// `MetaList` has tokens between delimiters, so any other item has empty `args`.
#[verifier::external_body]
fn parse_directives(tokens: &str, span: u64) -> (r: Result<Vec<Directive>, String>)
    ensures
        r matches Ok(items) ==> forall|k: int|
            0 <= k < items.len() ==> as_read(#[trigger] items.deep_view()[k]) && items.deep_view()[k].span
                == span,
{
    match Parser::parse_str(Punctuated::<Meta, Comma>::parse_terminated, tokens) {
        Ok(items) => Ok(items.iter().map(|m| Directive {
            head: m.path().get_ident().map(|i| i.to_string()),
            form: match m {
                Meta::Path(_) => MetaForm::Path,
                Meta::List(_) => MetaForm::List,
                Meta::NameValue(_) => MetaForm::NameValue,
            },
            args: match m { Meta::List(l) => l.tokens.to_string(), _ => String::new() },
            text: m.to_token_stream().to_string(),
            span,
        }).collect()),
        Err(e) => Err(e.to_string()),
    }
}

/// The place of the item at `at`: the one that `places` has for it, and `span`
/// where `places` ends before it.
pub open spec fn place_of(places: Seq<u64>, at: int, span: u64) -> u64 {
    if 0 <= at < places.len() {
        places[at]
    } else {
        span
    }
}

/// `d` at the place `span`.
pub open spec fn placed(d: DirectiveView, span: u64) -> DirectiveView {
    DirectiveView { span, ..d }
}

/// The items of a list, each at its place.
pub open spec fn placed_items(items: Seq<DirectiveView>, places: Seq<u64>, span: u64) -> Seq<
    DirectiveView,
> {
    Seq::new(items.len(), |k: int| placed(items[k], place_of(places, k, span)))
}

/// Gives each item of a list its place: the one that `places` has for it,
/// and `span` where `places` ends before it.
pub fn place_items(items: &Vec<Directive>, places: &Vec<u64>, span: u64) -> (r: Vec<Directive>)
    ensures
        r.deep_view() == placed_items(items.deep_view(), places@, span),
{
    let mut r: Vec<Directive> = Vec::new();
    let mut i: usize = 0;
    while i < items.len()
        invariant
            i <= items.len(),
            r.len() == i,
            forall|k: int|
                0 <= k < i ==> (#[trigger] r@[k]).deep_view() == placed(
                    items@[k].deep_view(),
                    place_of(places@, k, span),
                ),
        decreases items.len() - i,
    {
        let mut d = items[i].clone();
        d.span = if i < places.len() {
            places[i]
        } else {
            span
        };
        r.push(d);
        i = i + 1;
    }
    assert(r.deep_view() =~= placed_items(items.deep_view(), places@, span));
    r
}

/// The argument list that a reading came to, with each item at its place.
pub open spec fn placed_list(list: ArgumentListView, places: Seq<u64>, span: u64)
    -> ArgumentListView {
    match list {
        ArgumentListView::Items(items) => ArgumentListView::Items(
            placed_items(items, places, span),
        ),
        other => other,
    }
}

impl Annotation {
    /// Reads an annotation: `family` is its name, `text` its tokens, `args` the
    /// tokens of its argument list where it has one, and `places` the places
    /// at which the items of that list are written, in order.
    ///
    /// An annotation without a list keeps `Absent`. One with a list has the list
    /// split into its items; a list that cannot be split is kept as `Malformed`.
    /// Each item is at the place that `places` has for it, and at `span` where
    /// `places` has none.
    pub fn parse(
        family: Option<String>,
        args: Option<&str>,
        text: String,
        span: u64,
        places: &Vec<u64>,
    ) -> (a: Annotation)
        ensures
            a.family == family,
            a.text == text,
            a.span == span,
            args is None <==> a.list is Absent,
            a.deep_view().list == placed_list(a.deep_view().list, places@, span),
            all_as_read(a.deep_view().list),
    {
        let list = match args {
            None => ArgumentList::Absent,
            Some(tokens) => match ArgumentList::from_outcome(parse_directives(tokens, span)) {
                ArgumentList::Items(items) => ArgumentList::Items(
                    place_items(&items, places, span),
                ),
                other => other,
            },
        };
        let a = Annotation { family, list, text, span };
        proof {
            match a.deep_view().list {
                ArgumentListView::Items(items) => {
                    assert(placed_items(items, places@, span) =~= items);
                },
                _ => {},
            }
        }
        a
    }
}

/// What an argument between the angle brackets of a path segment is.
#[derive(Clone, Copy, Debug, PartialEq, Eq, Structural)]
pub enum ArgKind {
    /// A type other than the empty tuple.
    Type,
    /// The empty tuple `()`.
    Unit,
    /// A lifetime, a constant or a binding.
    Other,
}

/// One argument between the angle brackets of a path segment.
#[derive(Debug, PartialEq, Eq)]
pub struct GenericArg {
    pub kind: ArgKind,
    pub text: String,
    pub span: u64,
}

/// What a `GenericArg` holds, as the contracts see it.
pub struct GenericArgView {
    pub kind: ArgKind,
    pub text: Seq<char>,
    pub span: u64,
}

impl DeepView for GenericArg {
    type V = GenericArgView;

    open spec fn deep_view(&self) -> GenericArgView {
        GenericArgView { kind: self.kind, text: self.text@, span: self.span }
    }
}

/// What follows the identifier of a path segment.
#[derive(Debug, PartialEq, Eq)]
pub enum PathArguments {
    Absent,
    AngleBracketed { args: Vec<GenericArg>, span: u64 },
    Parenthesized,
}

/// What a `PathArguments` holds, as the contracts see it.
pub enum PathArgumentsView {
    Absent,
    AngleBracketed { args: Seq<GenericArgView>, span: u64 },
    Parenthesized,
}

impl DeepView for PathArguments {
    type V = PathArgumentsView;

    open spec fn deep_view(&self) -> PathArgumentsView {
        match self {
            PathArguments::Absent => PathArgumentsView::Absent,
            PathArguments::AngleBracketed { args, span } => PathArgumentsView::AngleBracketed {
                args: args.deep_view(),
                span: *span,
            },
            PathArguments::Parenthesized => PathArgumentsView::Parenthesized,
        }
    }
}

/// The last segment of a type's path.
#[derive(Debug, PartialEq, Eq)]
pub struct PathSegment {
    pub ident: String,
    pub ident_span: u64,
    pub arguments: PathArguments,
    pub span: u64,
}

/// What a `PathSegment` holds, as the contracts see it.
pub struct PathSegmentView {
    pub ident: Seq<char>,
    pub ident_span: u64,
    pub arguments: PathArgumentsView,
    pub span: u64,
}

impl DeepView for PathSegment {
    type V = PathSegmentView;

    open spec fn deep_view(&self) -> PathSegmentView {
        PathSegmentView {
            ident: self.ident@,
            ident_span: self.ident_span,
            arguments: self.arguments.deep_view(),
            span: self.span,
        }
    }
}

/// What the passes read of a type: whether it is a path, and the path's last segment.
#[derive(Debug, PartialEq, Eq)]
pub enum TypeShape {
    /// A path type with its last segment (`None` for a path without segments).
    Path(Option<PathSegment>),
    /// The empty tuple `()`.
    Unit,
    /// Any other type: a tuple with elements, a reference, a slice, ...
    Other,
}

/// What a `TypeShape` holds, as the contracts see it.
pub enum TypeShapeView {
    Path(Option<PathSegmentView>),
    Unit,
    Other,
}

impl DeepView for TypeShape {
    type V = TypeShapeView;

    open spec fn deep_view(&self) -> TypeShapeView {
        match self {
            TypeShape::Path(last) => TypeShapeView::Path(last.deep_view()),
            TypeShape::Unit => TypeShapeView::Unit,
            TypeShape::Other => TypeShapeView::Other,
        }
    }
}

/// A declared type.
#[derive(Debug, PartialEq, Eq)]
pub struct TypeDescriptor {
    /// The tokens of the type.
    pub text: String,
    pub shape: TypeShape,
    pub span: u64,
}

/// What a `TypeDescriptor` holds, as the contracts see it.
pub struct TypeView {
    pub text: Seq<char>,
    pub shape: TypeShapeView,
    pub span: u64,
}

impl DeepView for TypeDescriptor {
    type V = TypeView;

    open spec fn deep_view(&self) -> TypeView {
        TypeView { text: self.text@, shape: self.shape.deep_view(), span: self.span }
    }
}

/// One named field of a record or of a case.
#[derive(Debug, PartialEq, Eq)]
pub struct FieldDescriptor {
    pub name: String,
    pub ty: TypeDescriptor,
    pub attrs: Vec<Annotation>,
    /// Whether the field carries the location role.
    pub location_role: bool,
    pub span: u64,
}

/// What a `FieldDescriptor` holds, as the contracts see it.
pub struct FieldView {
    pub name: Seq<char>,
    pub ty: TypeView,
    pub attrs: Seq<AnnotationView>,
    pub location_role: bool,
    pub span: u64,
}

impl DeepView for FieldDescriptor {
    type V = FieldView;

    open spec fn deep_view(&self) -> FieldView {
        FieldView {
            name: self.name@,
            ty: self.ty.deep_view(),
            attrs: self.attrs.deep_view(),
            location_role: self.location_role,
            span: self.span,
        }
    }
}

/// The fields of a record or of a case.
#[derive(Debug, PartialEq, Eq)]
pub enum Fields {
    /// Named fields between braces.
    Named(Vec<FieldDescriptor>),
    /// Positional fields between parentheses.
    Unnamed,
    /// No field list at all.
    Unit,
}

/// What a `Fields` holds, as the contracts see it.
pub enum FieldsView {
    Named(Seq<FieldView>),
    Unnamed,
    Unit,
}

impl DeepView for Fields {
    type V = FieldsView;

    open spec fn deep_view(&self) -> FieldsView {
        match self {
            Fields::Named(fields) => FieldsView::Named(fields.deep_view()),
            Fields::Unnamed => FieldsView::Unnamed,
            Fields::Unit => FieldsView::Unit,
        }
    }
}

/// One case of a tagged-variant type.
#[derive(Debug, PartialEq, Eq)]
pub struct VariantDescriptor {
    pub name: String,
    pub attrs: Vec<Annotation>,
    pub fields: Fields,
    pub span: u64,
}

/// What a `VariantDescriptor` holds, as the contracts see it.
pub struct VariantView {
    pub name: Seq<char>,
    pub attrs: Seq<AnnotationView>,
    pub fields: FieldsView,
    pub span: u64,
}

impl DeepView for VariantDescriptor {
    type V = VariantView;

    open spec fn deep_view(&self) -> VariantView {
        VariantView {
            name: self.name@,
            attrs: self.attrs.deep_view(),
            fields: self.fields.deep_view(),
            span: self.span,
        }
    }
}

/// The body of a type definition.
#[derive(Debug, PartialEq, Eq)]
pub enum ItemBody {
    /// A record; `fields_span` is where its field list is written.
    Struct { fields: Fields, fields_span: u64 },
    Enum(Vec<VariantDescriptor>),
    Union,
}

/// What an `ItemBody` holds, as the contracts see it.
pub enum ItemBodyView {
    Struct { fields: FieldsView, fields_span: u64 },
    Enum(Seq<VariantView>),
    Union,
}

impl DeepView for ItemBody {
    type V = ItemBodyView;

    open spec fn deep_view(&self) -> ItemBodyView {
        match self {
            ItemBody::Struct { fields, fields_span } => ItemBodyView::Struct {
                fields: fields.deep_view(),
                fields_span: *fields_span,
            },
            ItemBody::Enum(variants) => ItemBodyView::Enum(variants.deep_view()),
            ItemBody::Union => ItemBodyView::Union,
        }
    }
}

/// The generic parameters of a type definition, split as an impl block needs them.
#[derive(Debug, PartialEq, Eq)]
pub struct Generics {
    /// The parameters with their bounds: `<T: Clone>`.
    pub impl_generics: String,
    /// The parameters alone: `<T>`.
    pub ty_generics: String,
    /// The predicates of the `where` clause, in order; `None` without a clause.
    pub where_predicates: Option<Vec<String>>,
}

/// What a `Generics` holds, as the contracts see it.
pub struct GenericsView {
    pub impl_generics: Seq<char>,
    pub ty_generics: Seq<char>,
    pub where_predicates: Option<Seq<Seq<char>>>,
}

impl DeepView for Generics {
    type V = GenericsView;

    open spec fn deep_view(&self) -> GenericsView {
        GenericsView {
            impl_generics: self.impl_generics@,
            ty_generics: self.ty_generics@,
            where_predicates: self.where_predicates.deep_view(),
        }
    }
}

/// A type definition: a record, a tagged-variant type or a union.
#[derive(Debug, PartialEq, Eq)]
pub struct SchemaItem {
    pub name: String,
    pub name_span: u64,
    pub attrs: Vec<Annotation>,
    pub generics: Generics,
    pub body: ItemBody,
    pub span: u64,
}

/// What a `SchemaItem` holds, as the contracts see it.
pub struct SchemaItemView {
    pub name: Seq<char>,
    pub name_span: u64,
    pub attrs: Seq<AnnotationView>,
    pub generics: GenericsView,
    pub body: ItemBodyView,
    pub span: u64,
}

impl DeepView for SchemaItem {
    type V = SchemaItemView;

    open spec fn deep_view(&self) -> SchemaItemView {
        SchemaItemView {
            name: self.name@,
            name_span: self.name_span,
            attrs: self.attrs.deep_view(),
            generics: self.generics.deep_view(),
            body: self.body.deep_view(),
            span: self.span,
        }
    }
}

/// The fields of one schema unit that carry a role, by position.
#[derive(Clone, Copy, Debug, PartialEq, Eq, Structural)]
pub struct ResolvedRoles {
    pub location_field: usize,
    pub source_field: Option<usize>,
}

impl Clone for Directive {
    fn clone(&self) -> (copy: Directive)
        ensures
            copy.deep_view() == self.deep_view(),
    {
        Directive {
            head: match &self.head {
                Some(head) => Some(head.clone()),
                None => None,
            },
            form: self.form,
            args: self.args.clone(),
            text: self.text.clone(),
            span: self.span,
        }
    }
}

/// A copy of a list of directives.
fn clone_directives(items: &Vec<Directive>) -> (copy: Vec<Directive>)
    ensures
        copy.deep_view() == items.deep_view(),
{
    let mut copy: Vec<Directive> = Vec::new();
    let mut i: usize = 0;
    while i < items.len()
        invariant
            i <= items.len(),
            copy.len() == i,
            forall|k: int| 0 <= k < i ==> (#[trigger] copy@[k]).deep_view() == items@[k].deep_view(),
        decreases items.len() - i,
    {
        copy.push(items[i].clone());
        i = i + 1;
    }
    copy
}

impl Clone for Annotation {
    fn clone(&self) -> (copy: Annotation)
        ensures
            copy.deep_view() == self.deep_view(),
    {
        Annotation {
            family: match &self.family {
                Some(family) => Some(family.clone()),
                None => None,
            },
            list: match &self.list {
                ArgumentList::Absent => ArgumentList::Absent,
                ArgumentList::Items(items) => ArgumentList::Items(clone_directives(items)),
                ArgumentList::Malformed(why) => ArgumentList::Malformed(why.clone()),
            },
            text: self.text.clone(),
            span: self.span,
        }
    }
}

impl Clone for GenericArg {
    fn clone(&self) -> (copy: GenericArg)
        ensures
            copy.deep_view() == self.deep_view(),
    {
        GenericArg { kind: self.kind, text: self.text.clone(), span: self.span }
    }
}

impl Clone for PathArguments {
    fn clone(&self) -> (copy: PathArguments)
        ensures
            copy.deep_view() == self.deep_view(),
    {
        match self {
            PathArguments::Absent => PathArguments::Absent,
            PathArguments::AngleBracketed { args, span } => {
                let mut copy: Vec<GenericArg> = Vec::new();
                let mut i: usize = 0;
                while i < args.len()
                    invariant
                        i <= args.len(),
                        copy.len() == i,
                        forall|k: int|
                            0 <= k < i ==> (#[trigger] copy@[k]).deep_view() == args@[k].deep_view(),
                    decreases args.len() - i,
                {
                    copy.push(args[i].clone());
                    i = i + 1;
                }
                assert(copy.deep_view() =~= args.deep_view());
                PathArguments::AngleBracketed { args: copy, span: *span }
            },
            PathArguments::Parenthesized => PathArguments::Parenthesized,
        }
    }
}

impl Clone for TypeDescriptor {
    fn clone(&self) -> (copy: TypeDescriptor)
        ensures
            copy.deep_view() == self.deep_view(),
    {
        TypeDescriptor {
            text: self.text.clone(),
            shape: match &self.shape {
                TypeShape::Path(Some(last)) => TypeShape::Path(
                    Some(
                        PathSegment {
                            ident: last.ident.clone(),
                            ident_span: last.ident_span,
                            arguments: last.arguments.clone(),
                            span: last.span,
                        },
                    ),
                ),
                TypeShape::Path(None) => TypeShape::Path(None),
                TypeShape::Unit => TypeShape::Unit,
                TypeShape::Other => TypeShape::Other,
            },
            span: self.span,
        }
    }
}

/// A copy of a list of annotations.
pub fn clone_annotations(attrs: &Vec<Annotation>) -> (copy: Vec<Annotation>)
    ensures
        copy.deep_view() == attrs.deep_view(),
{
    let mut copy: Vec<Annotation> = Vec::new();
    let mut i: usize = 0;
    while i < attrs.len()
        invariant
            i <= attrs.len(),
            copy.len() == i,
            forall|k: int| 0 <= k < i ==> (#[trigger] copy@[k]).deep_view() == attrs@[k].deep_view(),
        decreases attrs.len() - i,
    {
        copy.push(attrs[i].clone());
        i = i + 1;
    }
    copy
}

impl Clone for FieldDescriptor {
    fn clone(&self) -> (copy: FieldDescriptor)
        ensures
            copy.deep_view() == self.deep_view(),
    {
        FieldDescriptor {
            name: self.name.clone(),
            ty: self.ty.clone(),
            attrs: clone_annotations(&self.attrs),
            location_role: self.location_role,
            span: self.span,
        }
    }
}

/// A copy of a list of fields.
pub fn clone_fields(fields: &Vec<FieldDescriptor>) -> (copy: Vec<FieldDescriptor>)
    ensures
        copy.deep_view() == fields.deep_view(),
{
    let mut copy: Vec<FieldDescriptor> = Vec::new();
    let mut i: usize = 0;
    while i < fields.len()
        invariant
            i <= fields.len(),
            copy.len() == i,
            forall|k: int| 0 <= k < i ==> (#[trigger] copy@[k]).deep_view() == fields@[k].deep_view(),
        decreases fields.len() - i,
    {
        copy.push(fields[i].clone());
        i = i + 1;
    }
    copy
}

} // verus!
