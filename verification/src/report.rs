//! The report attribute: a function that returns `Result<(), E>` is turned
//! into one that returns the report wrapper of `E`.

use vstd::prelude::*;
use crate::diagnostic::{plain_diagnostic, DefinitionError, DiagnosticKind, DiagnosticView};
use crate::schema::{
    ArgKind, GenericArg, GenericArgView, PathArguments, PathArgumentsView, TypeDescriptor,
    TypeShape, TypeShapeView, TypeView,
};
use crate::text::str_eq;

verus! {

/// What the report attribute reads of a function.
#[derive(Debug, PartialEq, Eq)]
pub struct FnSignature {
    /// Where `async` is written, if it is.
    pub asyncness: Option<u64>,
    /// The number of generic parameters.
    pub generic_params: usize,
    pub generics_span: u64,
    /// Where the `where` clause is written, if there is one.
    pub where_clause: Option<u64>,
    /// The declared return type, if there is one.
    pub output: Option<TypeDescriptor>,
    pub output_span: u64,
}

/// What a `FnSignature` holds, as the contracts see it.
pub struct FnSignatureView {
    pub asyncness: Option<u64>,
    pub generic_params: usize,
    pub generics_span: u64,
    pub where_clause: Option<u64>,
    pub output: Option<TypeView>,
    pub output_span: u64,
}

impl DeepView for FnSignature {
    type V = FnSignatureView;

    open spec fn deep_view(&self) -> FnSignatureView {
        FnSignatureView {
            asyncness: self.asyncness,
            generic_params: self.generic_params,
            generics_span: self.generics_span,
            where_clause: self.where_clause,
            output: self.output.deep_view(),
            output_span: self.output_span,
        }
    }
}

/// The types of the function that takes the place of the annotated one.
#[derive(Debug, PartialEq, Eq)]
pub struct ReportPlan {
    /// The new return type: the report wrapper of the error type.
    pub return_type: String,
    /// The return type of the closure that holds the old body: the old return type.
    pub closure_return_type: String,
    /// The error type `E`.
    pub error_type: String,
}

/// What a `ReportPlan` holds, as the contracts see it.
pub struct ReportPlanView {
    pub return_type: Seq<char>,
    pub closure_return_type: Seq<char>,
    pub error_type: Seq<char>,
}

impl DeepView for ReportPlan {
    type V = ReportPlanView;

    open spec fn deep_view(&self) -> ReportPlanView {
        ReportPlanView {
            return_type: self.return_type@,
            closure_return_type: self.closure_return_type@,
            error_type: self.error_type@,
        }
    }
}

/// The error type `E` of a return type `Result<(), E>`. The type must be a
/// path that ends in `Result` with two types between angle brackets, the first
/// of them `()`; each other shape is an error at the part that is wrong.
pub open spec fn extract_result_error_type_spec(ty: TypeView) -> Result<
    GenericArgView,
    DiagnosticView,
> {
    match ty.shape {
        TypeShapeView::Path(Some(last)) => if last.ident != "Result"@ {
            Err(plain_diagnostic(DiagnosticKind::ReportReturnType, last.ident_span))
        } else {
            match last.arguments {
                PathArgumentsView::AngleBracketed { args, span } => if args.len() != 2 {
                    Err(plain_diagnostic(DiagnosticKind::ReportReturnType, span))
                } else if args[0].kind == ArgKind::Other {
                    Err(plain_diagnostic(DiagnosticKind::ReportReturnType, args[0].span))
                } else if args[0].kind != ArgKind::Unit {
                    Err(plain_diagnostic(DiagnosticKind::ReportOkType, args[0].span))
                } else if args[1].kind == ArgKind::Other {
                    Err(plain_diagnostic(DiagnosticKind::ReportReturnType, args[1].span))
                } else {
                    Ok(args[1])
                },
                _ => Err(plain_diagnostic(DiagnosticKind::ReportReturnType, last.span)),
            }
        },
        _ => Err(plain_diagnostic(DiagnosticKind::ReportReturnType, ty.span)),
    }
}

/// Takes the error type `E` out of a return type `Result<(), E>`.
pub fn extract_result_error_type(ty: &TypeDescriptor) -> (r: Result<&GenericArg, DefinitionError>)
    ensures
        match extract_result_error_type_spec(ty.deep_view()) {
            Ok(arg) => r matches Ok(found) && found.deep_view() == arg,
            Err(d) => r matches Err(e) && e.deep_view() == seq![d],
        },
{
    let last = match &ty.shape {
        TypeShape::Path(Some(last)) => last,
        _ => {
            return Err(DefinitionError::new(DiagnosticKind::ReportReturnType, ty.span));
        },
    };
    if !str_eq(last.ident.as_str(), "Result") {
        return Err(DefinitionError::new(DiagnosticKind::ReportReturnType, last.ident_span));
    }
    let (args, span) = match &last.arguments {
        PathArguments::AngleBracketed { args, span } => (args, *span),
        _ => {
            return Err(DefinitionError::new(DiagnosticKind::ReportReturnType, last.span));
        },
    };
    if args.len() != 2 {
        return Err(DefinitionError::new(DiagnosticKind::ReportReturnType, span));
    }
    match args[0].kind {
        ArgKind::Other => {
            return Err(DefinitionError::new(DiagnosticKind::ReportReturnType, args[0].span));
        },
        ArgKind::Type => {
            return Err(DefinitionError::new(DiagnosticKind::ReportOkType, args[0].span));
        },
        ArgKind::Unit => {},
    }
    match args[1].kind {
        ArgKind::Other => Err(DefinitionError::new(DiagnosticKind::ReportReturnType, args[1].span)),
        _ => Ok(&args[1]),
    }
}

/// The report wrapper of `error_type`, of the crate at `crate_path`.
pub open spec fn report_type_text(crate_path: Seq<char>, error_type: Seq<char>) -> Seq<char> {
    crate_path + "::StackReport<"@ + error_type + ">"@
}

/// The first step: the attribute takes no arguments. It is taken before
/// the function is read.
pub open spec fn check_arguments_spec(has_arguments: bool, arguments_span: u64) -> Result<
    (),
    DiagnosticView,
> {
    if has_arguments {
        Err(plain_diagnostic(DiagnosticKind::ReportArguments, arguments_span))
    } else {
        Ok(())
    }
}

/// Refuses arguments given to the report attribute.
pub fn check_arguments(has_arguments: bool, arguments_span: u64) -> (r: Result<
    (),
    DefinitionError,
>)
    ensures
        match check_arguments_spec(has_arguments, arguments_span) {
            Ok(()) => r is Ok,
            Err(d) => r matches Err(e) && e.deep_view() == seq![d],
        },
{
    if has_arguments {
        Err(DefinitionError::new(DiagnosticKind::ReportArguments, arguments_span))
    } else {
        Ok(())
    }
}

/// The second step: the function must be neither `async` nor generic and
/// must declare a return type, which is handed on; the first of these that
/// fails is the error. It is taken before the crate of the report wrapper is
/// looked for.
pub open spec fn check_signature_spec(sig: FnSignatureView) -> Result<TypeView, DiagnosticView> {
    if sig.asyncness is Some {
        Err(plain_diagnostic(DiagnosticKind::ReportAsync, sig.asyncness.unwrap()))
    } else if sig.generic_params != 0 {
        Err(plain_diagnostic(DiagnosticKind::ReportGenerics, sig.generics_span))
    } else if sig.where_clause is Some {
        Err(plain_diagnostic(DiagnosticKind::ReportWhereClause, sig.where_clause.unwrap()))
    } else {
        match sig.output {
            None => Err(plain_diagnostic(DiagnosticKind::ReportNoReturnType, sig.output_span)),
            Some(ty) => Ok(ty),
        }
    }
}

/// Looks at the function itself and hands on its declared return type.
pub fn check_signature(sig: &FnSignature) -> (r: Result<&TypeDescriptor, DefinitionError>)
    ensures
        match check_signature_spec(sig.deep_view()) {
            Ok(ty) => r matches Ok(found) && found.deep_view() == ty && sig.output == Some(*found),
            Err(d) => r matches Err(e) && e.deep_view() == seq![d],
        },
{
    match sig.asyncness {
        Some(span) => {
            return Err(DefinitionError::new(DiagnosticKind::ReportAsync, span));
        },
        None => {},
    }
    if sig.generic_params != 0 {
        return Err(DefinitionError::new(DiagnosticKind::ReportGenerics, sig.generics_span));
    }
    match sig.where_clause {
        Some(span) => {
            return Err(DefinitionError::new(DiagnosticKind::ReportWhereClause, span));
        },
        None => {},
    }
    match &sig.output {
        Some(ty) => Ok(ty),
        None => Err(DefinitionError::new(DiagnosticKind::ReportNoReturnType, sig.output_span)),
    }
}

/// The third step: the return type must be `Result<(), E>`; the function
/// then returns the report wrapper of `E`, of the crate at `crate_path`, and
/// its old body returns what it returned before. It is taken once the crate
/// is known.
pub open spec fn plan_report_spec(ty: TypeView, crate_path: Seq<char>) -> Result<
    ReportPlanView,
    DiagnosticView,
> {
    match extract_result_error_type_spec(ty) {
        Ok(arg) => Ok(
            ReportPlanView {
                return_type: report_type_text(crate_path, arg.text),
                closure_return_type: ty.text,
                error_type: arg.text,
            },
        ),
        Err(d) => Err(d),
    }
}

/// Plans the types of the function that takes the place of the annotated one.
pub fn plan_report(ty: &TypeDescriptor, crate_path: &str) -> (r: Result<
    ReportPlan,
    DefinitionError,
>)
    ensures
        match plan_report_spec(ty.deep_view(), crate_path@) {
            Ok(plan) => r matches Ok(p) && p.deep_view() == plan,
            Err(d) => r matches Err(e) && e.deep_view() == seq![d],
        },
{
    let arg = match extract_result_error_type(ty) {
        Ok(arg) => arg,
        Err(e) => {
            return Err(e);
        },
    };
    let mut return_type = crate_path.to_owned();
    return_type.append("::StackReport<");
    return_type.append(arg.text.as_str());
    return_type.append(">");
    Ok(
        ReportPlan {
            return_type,
            closure_return_type: ty.text.clone(),
            error_type: arg.text.clone(),
        },
    )
}

/// What the report attribute makes of a function: the three steps in their
/// order, and the error of the first that fails.
pub open spec fn report_impl_spec(
    has_arguments: bool,
    arguments_span: u64,
    sig: FnSignatureView,
    crate_path: Seq<char>,
) -> Result<ReportPlanView, DiagnosticView> {
    match check_arguments_spec(has_arguments, arguments_span) {
        Err(d) => Err(d),
        Ok(()) => match check_signature_spec(sig) {
            Err(d) => Err(d),
            Ok(ty) => plan_report_spec(ty, crate_path),
        },
    }
}

/// Plans the function that takes the place of one with the report attribute.
pub fn report_impl(
    has_arguments: bool,
    arguments_span: u64,
    sig: &FnSignature,
    crate_path: &str,
) -> (r: Result<ReportPlan, DefinitionError>)
    ensures
        match report_impl_spec(has_arguments, arguments_span, sig.deep_view(), crate_path@) {
            Ok(plan) => r matches Ok(p) && p.deep_view() == plan,
            Err(d) => r matches Err(e) && e.deep_view() == seq![d],
        },
{
    match check_arguments(has_arguments, arguments_span) {
        Err(e) => {
            return Err(e);
        },
        Ok(()) => {},
    }
    match check_signature(sig) {
        Err(e) => Err(e),
        Ok(ty) => plan_report(ty, crate_path),
    }
}

} // verus!
