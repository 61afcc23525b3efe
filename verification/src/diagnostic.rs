//! Definition-time diagnostics: what went wrong, and at which place of the
//! definition it is reported.

use vstd::prelude::*;

verus! {

/// The sorts of definition-time failure.
#[derive(Clone, Copy, Debug, PartialEq, Eq, Structural)]
pub enum DiagnosticKind {
    /// A `suzu` annotation without an argument list, or with an empty one.
    MissingArguments,
    /// An argument list that is no list of directives; the detail holds the parser's words.
    Syntax,
    /// The originates-from role directive on a type or a case; the detail
    /// holds the word with which it was written.
    FromNotOnField,
    /// The location role directive on a type or a case.
    LocationNotOnField,
    /// The originates-from role directive beside a `source` directive in one
    /// annotation; the detail holds the word with which it was written.
    FromWithSource,
    /// The originates-from role directive on a field that already has a
    /// `source` directive; the detail holds the word with which it was written.
    FromWithExistingSource,
    /// The originates-from and the location role directives on one field; the
    /// detail holds the word with which the first was written.
    FromWithLocation,
    /// A second field marked with the location role directive.
    MultipleLocationMarkers,
    /// Several fields of the location type, none of them marked.
    AmbiguousLocationType,
    /// A field named `location` whose type is not the location type.
    WrongLocationType,
    /// No field that can carry the location.
    NoLocationField,
    /// `suzu` annotations on a union.
    SuzuOnUnion,
    /// The capability asked for a union.
    DeriveOnUnion,
    /// The capability asked for a record without named fields.
    DeriveOnUnnamedStruct,
    /// The capability asked for a type with a case without named fields.
    DeriveOnUnnamedVariant,
    /// A location field asked for a union.
    LocationOnUnion,
    /// A location field asked for a record without named fields.
    LocationOnUnnamedStruct,
    /// A location field asked for a case with positional fields.
    LocationOnUnnamedVariant,
    /// A `stack` annotation without an argument list, or with an empty one.
    StackWithoutArguments,
    /// An item of a `stack` annotation that is not the word `location`; the
    /// detail holds the item as it is written.
    StackUnknownArgument,
    /// Arguments given to the report attribute.
    ReportArguments,
    /// The report attribute on an `async` function.
    ReportAsync,
    /// The report attribute on a function with generic parameters.
    ReportGenerics,
    /// The report attribute on a function with a `where` clause.
    ReportWhereClause,
    /// The report attribute on a function without a return type.
    ReportNoReturnType,
    /// The report attribute on a function that does not return `Result<(), E>`.
    ReportReturnType,
    /// The report attribute on a function whose success type is not `()`.
    ReportOkType,
}

/// One diagnostic, anchored at a place of the definition.
#[derive(Debug, PartialEq, Eq)]
pub struct Diagnostic {
    pub kind: DiagnosticKind,
    pub span: u64,
    /// The parser's words for `Syntax`; the word with which the
    /// originates-from role directive was written, for the diagnostics that
    /// name it; the item as it is written, for `StackUnknownArgument`; empty
    /// otherwise.
    pub detail: String,
}

/// What a `Diagnostic` holds, as the contracts see it.
pub struct DiagnosticView {
    pub kind: DiagnosticKind,
    pub span: u64,
    pub detail: Seq<char>,
}

impl DeepView for Diagnostic {
    type V = DiagnosticView;

    open spec fn deep_view(&self) -> DiagnosticView {
        DiagnosticView { kind: self.kind, span: self.span, detail: self.detail@ }
    }
}

/// The diagnostic of sort `kind` at `span`, without detail.
pub open spec fn plain_diagnostic(kind: DiagnosticKind, span: u64) -> DiagnosticView {
    DiagnosticView { kind, span, detail: Seq::empty() }
}

/// The words in which a diagnostic is reported.
pub open spec fn message_text(d: DiagnosticView) -> Seq<char> {
    match d.kind {
        DiagnosticKind::MissingArguments => "#[suzu] requires arguments"@,
        DiagnosticKind::Syntax => d.detail,
        DiagnosticKind::FromNotOnField => "`"@ + d.detail + "` can only be used on fields"@,
        DiagnosticKind::LocationNotOnField => "`location` can only be used on fields"@,
        DiagnosticKind::FromWithSource => "`"@ + d.detail + "` conflicts with `source(...)` — `"@
            + d.detail + "` generates `source(from(...))` automatically"@,
        DiagnosticKind::FromWithExistingSource => "`"@ + d.detail
            + "` conflicts with existing `#[snafu(source(...))]`"@,
        DiagnosticKind::FromWithLocation => "`"@ + d.detail
            + "` and `location` cannot be used on the same field"@,
        DiagnosticKind::MultipleLocationMarkers =>
            "multiple location markers: only one field can be marked with `location`"@,
        DiagnosticKind::AmbiguousLocationType =>
            "ambiguous location: several fields have the type Location; mark the intended one with `location`"@,
        DiagnosticKind::WrongLocationType =>
            "wrong type: the field named `location` must have the type Location"@,
        DiagnosticKind::NoLocationField => "StackError requires a field of type Location"@,
        DiagnosticKind::SuzuOnUnion => "#[suzu] cannot be used on unions"@,
        DiagnosticKind::DeriveOnUnion => "StackError cannot be derived for unions"@,
        DiagnosticKind::DeriveOnUnnamedStruct =>
            "StackError can only be derived for structs with named fields"@,
        DiagnosticKind::DeriveOnUnnamedVariant =>
            "StackError can only be derived for enums with named fields in all variants"@,
        DiagnosticKind::LocationOnUnion => "suzunari_location cannot be used on unions"@,
        DiagnosticKind::LocationOnUnnamedStruct =>
            "suzunari_location can only be used on structs with named fields"@,
        DiagnosticKind::LocationOnUnnamedVariant =>
            "suzunari_location can only be used on enum variants with named fields"@,
        DiagnosticKind::StackWithoutArguments => "#[stack] requires arguments"@,
        DiagnosticKind::StackUnknownArgument => "unknown argument `"@ + d.detail
            + "` in #[stack(...)]: only `location` is supported"@,
        DiagnosticKind::ReportArguments => "#[report] does not accept arguments"@,
        DiagnosticKind::ReportAsync =>
            "#[report] does not support async functions. Place #[report] below #[tokio::main] or similar runtime attributes so that async is resolved first."@,
        DiagnosticKind::ReportGenerics => "#[report] does not support generic parameters"@,
        DiagnosticKind::ReportWhereClause => "#[report] does not support where clauses"@,
        DiagnosticKind::ReportNoReturnType =>
            "#[report] requires the function to return Result<(), E>"@,
        DiagnosticKind::ReportReturnType =>
            "#[report] requires the return type to be Result<(), E>"@,
        DiagnosticKind::ReportOkType =>
            "#[report] requires the Ok type to be (), only Result<(), E> is supported"@,
    }
}

impl Diagnostic {
    /// A diagnostic of sort `kind` at `span`, without detail.
    pub fn new(kind: DiagnosticKind, span: u64) -> (d: Diagnostic)
        ensures
            d.deep_view() == plain_diagnostic(kind, span),
    {
        Diagnostic { kind, span, detail: String::new() }
    }

    /// The words in which the diagnostic is reported.
    pub fn message(&self) -> (text: String)
        ensures
            text@ == message_text(self.deep_view()),
    {
        let fixed: &str = match self.kind {
            DiagnosticKind::MissingArguments => "#[suzu] requires arguments",
            DiagnosticKind::Syntax => {
                return self.detail.clone();
            },
            DiagnosticKind::FromNotOnField => {
                let mut text = "`".to_owned();
                text.append(self.detail.as_str());
                text.append("` can only be used on fields");
                return text;
            },
            DiagnosticKind::LocationNotOnField => "`location` can only be used on fields",
            DiagnosticKind::FromWithSource => {
                let mut text = "`".to_owned();
                text.append(self.detail.as_str());
                text.append("` conflicts with `source(...)` — `");
                text.append(self.detail.as_str());
                text.append("` generates `source(from(...))` automatically");
                return text;
            },
            DiagnosticKind::FromWithExistingSource => {
                let mut text = "`".to_owned();
                text.append(self.detail.as_str());
                text.append("` conflicts with existing `#[snafu(source(...))]`");
                return text;
            },
            DiagnosticKind::FromWithLocation => {
                let mut text = "`".to_owned();
                text.append(self.detail.as_str());
                text.append("` and `location` cannot be used on the same field");
                return text;
            },
            DiagnosticKind::MultipleLocationMarkers =>
                "multiple location markers: only one field can be marked with `location`",
            DiagnosticKind::AmbiguousLocationType =>
                "ambiguous location: several fields have the type Location; mark the intended one with `location`",
            DiagnosticKind::WrongLocationType =>
                "wrong type: the field named `location` must have the type Location",
            DiagnosticKind::NoLocationField => "StackError requires a field of type Location",
            DiagnosticKind::SuzuOnUnion => "#[suzu] cannot be used on unions",
            DiagnosticKind::DeriveOnUnion => "StackError cannot be derived for unions",
            DiagnosticKind::DeriveOnUnnamedStruct =>
                "StackError can only be derived for structs with named fields",
            DiagnosticKind::DeriveOnUnnamedVariant =>
                "StackError can only be derived for enums with named fields in all variants",
            DiagnosticKind::LocationOnUnion => "suzunari_location cannot be used on unions",
            DiagnosticKind::LocationOnUnnamedStruct =>
                "suzunari_location can only be used on structs with named fields",
            DiagnosticKind::LocationOnUnnamedVariant =>
                "suzunari_location can only be used on enum variants with named fields",
            DiagnosticKind::StackWithoutArguments => "#[stack] requires arguments",
            DiagnosticKind::StackUnknownArgument => {
                let mut text = "unknown argument `".to_owned();
                text.append(self.detail.as_str());
                text.append("` in #[stack(...)]: only `location` is supported");
                return text;
            },
            DiagnosticKind::ReportArguments => "#[report] does not accept arguments",
            DiagnosticKind::ReportAsync =>
                "#[report] does not support async functions. Place #[report] below #[tokio::main] or similar runtime attributes so that async is resolved first.",
            DiagnosticKind::ReportGenerics => "#[report] does not support generic parameters",
            DiagnosticKind::ReportWhereClause => "#[report] does not support where clauses",
            DiagnosticKind::ReportNoReturnType =>
                "#[report] requires the function to return Result<(), E>",
            DiagnosticKind::ReportReturnType =>
                "#[report] requires the return type to be Result<(), E>",
            DiagnosticKind::ReportOkType =>
                "#[report] requires the Ok type to be (), only Result<(), E> is supported",
        };
        fixed.to_owned()
    }
}

/// A definition-time error: the diagnostics of one definition, in the order
/// in which they were found.
#[derive(Debug, PartialEq, Eq)]
pub struct DefinitionError {
    pub diagnostics: Vec<Diagnostic>,
}

impl DeepView for DefinitionError {
    type V = Seq<DiagnosticView>;

    open spec fn deep_view(&self) -> Seq<DiagnosticView> {
        self.diagnostics.deep_view()
    }
}

/// The diagnostics of a list of errors, one after the other.
pub open spec fn all_diagnostics(errors: Seq<Seq<DiagnosticView>>) -> Seq<DiagnosticView>
    decreases errors.len(),
{
    if errors.len() == 0 {
        Seq::empty()
    } else {
        all_diagnostics(errors.drop_last()) + errors.last()
    }
}

impl DefinitionError {
    /// The error that holds the one diagnostic of sort `kind` at `span`.
    pub fn new(kind: DiagnosticKind, span: u64) -> (e: DefinitionError)
        ensures
            e.deep_view() == seq![plain_diagnostic(kind, span)],
    {
        let mut diagnostics: Vec<Diagnostic> = Vec::new();
        diagnostics.push(Diagnostic::new(kind, span));
        let e = DefinitionError { diagnostics };
        e
    }

    /// The error that holds the one diagnostic of sort `kind` at `span`
    /// with the given detail.
    pub fn detailed(kind: DiagnosticKind, detail: String, span: u64) -> (e: DefinitionError)
        ensures
            e.deep_view() == seq![DiagnosticView { kind, span, detail: detail@ }],
    {
        let mut diagnostics: Vec<Diagnostic> = Vec::new();
        diagnostics.push(Diagnostic { kind, span, detail });
        let e = DefinitionError { diagnostics };
        assert(e.deep_view() =~= seq![DiagnosticView { kind, span, detail: detail@ }]);
        e
    }

    /// The error that reports what the parser said of an argument list at `span`.
    pub fn syntax(detail: String, span: u64) -> (e: DefinitionError)
        ensures
            e.deep_view() == seq![
                DiagnosticView { kind: DiagnosticKind::Syntax, span, detail: detail@ },
            ],
    {
        let mut diagnostics: Vec<Diagnostic> = Vec::new();
        diagnostics.push(Diagnostic { kind: DiagnosticKind::Syntax, span, detail });
        let e = DefinitionError { diagnostics };
        e
    }

    /// Adds the diagnostics of `other` after those of `self`.
    pub fn combine(&mut self, other: DefinitionError)
        ensures
            final(self).deep_view() == old(self).deep_view() + other.deep_view(),
    {
        let mut rest = other.diagnostics;
        self.diagnostics.append(&mut rest);
    }
}

/// Folds the errors of one definition into one: no error where the list is
/// empty, else the error that holds all their diagnostics in order.
pub fn combine_errors(errors: Vec<DefinitionError>) -> (r: Result<(), DefinitionError>)
    ensures
        r is Ok <==> errors.len() == 0,
        r matches Err(e) ==> e.deep_view() == all_diagnostics(errors.deep_view()),
{
    let mut errors = errors;
    let ghost all = errors.deep_view();
    let mut rest: Vec<DefinitionError> = Vec::new();
    // Taken from the back, so what is left is always a prefix of the list.
    while errors.len() > 1
        invariant
            all.len() > 0 ==> errors.len() > 0,
            errors.len() + rest.len() == all.len(),
            forall|k: int| 0 <= k < errors.len() ==> (#[trigger] errors@[k]).deep_view() == all[k],
            forall|k: int|
                0 <= k < rest.len() ==> (#[trigger] rest@[k]).deep_view() == all[all.len() - 1 - k],
        decreases errors.len(),
    {
        let last = errors.pop().unwrap();
        rest.push(last);
    }
    match errors.pop() {
        None => Ok(()),
        Some(first) => {
            let mut combined = first;
            assert(all_diagnostics(all.take(1)) =~= combined.deep_view()) by {
                assert(all_diagnostics(all.take(1).drop_last()) =~= Seq::<DiagnosticView>::empty());
            }
            let ghost mut taken: int = 1;
            while rest.len() > 0
                invariant
                    1 <= taken <= all.len(),
                    taken + rest.len() == all.len(),
                    combined.deep_view() == all_diagnostics(all.take(taken)),
                    forall|k: int|
                        0 <= k < rest.len() ==> (#[trigger] rest@[k]).deep_view() == all[all.len() - 1
                            - k],
                decreases rest.len(),
            {
                let next = rest.pop().unwrap();
                combined.combine(next);
                proof {
                    assert(all.take(taken + 1).drop_last() =~= all.take(taken));
                    taken = taken + 1;
                }
            }
            assert(all.take(taken) =~= all);
            Err(combined)
        },
    }
}

} // verus!
