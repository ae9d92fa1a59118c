//! The error taxonomy of the knowledge base.
//!
//! Mutating operations surface [`RuntimeError`]s directly; rule and
//! rule-type validation produces [`ValidationError`]s, which
//! `validate_rules` wraps as [`Diagnostic`]s. Each error renders to a
//! message string whose exact text is fixed by the spec functions here.

use vstd::prelude::*;

use crate::fmt::render_term;
use crate::rules::{Rule, RuleV, render_rule, rule_to_polar};
use crate::sources::{Source, SourceV};
use crate::terms::{Span, Term, TermV};

verus! {

/// An error surfaced directly by a mutating operation.
#[derive(Debug)]
pub enum RuntimeError {
    FileLoading { msg: String },
    InvalidRegistration { msg: String, sym: crate::terms::Symbol },
    InvalidState { msg: String },
}

/// View of a runtime error.
pub enum RuntimeErrorV {
    FileLoading { msg: Seq<char> },
    InvalidRegistration { msg: Seq<char>, sym: Seq<char> },
    InvalidState { msg: Seq<char> },
}

impl View for RuntimeError {
    type V = RuntimeErrorV;

    open spec fn view(&self) -> RuntimeErrorV {
        match self {
            RuntimeError::FileLoading { msg } => RuntimeErrorV::FileLoading { msg: msg@ },
            RuntimeError::InvalidRegistration { msg, sym } => RuntimeErrorV::InvalidRegistration {
                msg: msg@,
                sym: sym@,
            },
            RuntimeError::InvalidState { msg } => RuntimeErrorV::InvalidState { msg: msg@ },
        }
    }
}

impl RuntimeError {
    /// The message carried by the error.
    pub fn message(&self) -> (r: String)
        ensures
            r@ == spec_runtime_message(self@),
    {
        match self {
            RuntimeError::FileLoading { msg } => msg.clone(),
            RuntimeError::InvalidRegistration { msg, .. } => msg.clone(),
            RuntimeError::InvalidState { msg } => msg.clone(),
        }
    }
}

/// The message of a runtime error: the text it was raised with.
pub open spec fn spec_runtime_message(e: RuntimeErrorV) -> Seq<char> {
    match e {
        RuntimeErrorV::FileLoading { msg } => msg,
        RuntimeErrorV::InvalidRegistration { msg, .. } => msg,
        RuntimeErrorV::InvalidState { msg } => msg,
    }
}

/// An error found while validating rules against rule types.
#[derive(Debug)]
pub enum ValidationError {
    InvalidRule { rule: Rule, msg: String },
    InvalidRuleType { rule_type: Rule, msg: String },
    MissingRequiredRule { rule_type: Rule },
    UnregisteredClass { term: Term },
}

/// View of a validation error.
pub enum ValidationErrorV {
    InvalidRule { rule: RuleV, msg: Seq<char> },
    InvalidRuleType { rule_type: RuleV, msg: Seq<char> },
    MissingRequiredRule { rule_type: RuleV },
    UnregisteredClass { term: TermV },
}

impl View for ValidationError {
    type V = ValidationErrorV;

    open spec fn view(&self) -> ValidationErrorV {
        match self {
            ValidationError::InvalidRule { rule, msg } => ValidationErrorV::InvalidRule {
                rule: rule@,
                msg: msg@,
            },
            ValidationError::InvalidRuleType { rule_type, msg } => ValidationErrorV::InvalidRuleType {
                rule_type: rule_type@,
                msg: msg@,
            },
            ValidationError::MissingRequiredRule { rule_type } => ValidationErrorV::MissingRequiredRule {
                rule_type: rule_type@,
            },
            ValidationError::UnregisteredClass { term } => ValidationErrorV::UnregisteredClass {
                term: term@,
            },
        }
    }
}

/// The message of a validation error.
pub open spec fn spec_validation_message(e: ValidationErrorV) -> Seq<char> {
    match e {
        ValidationErrorV::InvalidRule { rule, msg } => "Invalid rule: "@ + render_rule(rule) + " "@
            + msg,
        ValidationErrorV::InvalidRuleType { rule_type, msg } => "Invalid rule type: "@
            + render_rule(rule_type) + " "@ + msg,
        ValidationErrorV::MissingRequiredRule { rule_type } => {
            "Missing implementation for required rule type "@ + render_rule(rule_type)
        },
        ValidationErrorV::UnregisteredClass { term } => "Unregistered class: "@ + render_term(term),
    }
}

impl ValidationError {
    /// Render the error message.
    pub fn message(&self) -> (r: String)
        ensures
            r@ == spec_validation_message(self@),
    {
        match self {
            ValidationError::InvalidRule { rule, msg } => {
                let rendered = rule_to_polar(rule);
                let out = String::new().concat("Invalid rule: ").concat(rendered.as_str()).concat(
                    " ",
                ).concat(msg.as_str());
                assert(out@ =~= "Invalid rule: "@ + render_rule(rule@) + " "@ + msg@);
                out
            },
            ValidationError::InvalidRuleType { rule_type, msg } => {
                let rendered = rule_to_polar(rule_type);
                let out = String::new().concat("Invalid rule type: ").concat(
                    rendered.as_str(),
                ).concat(" ").concat(msg.as_str());
                assert(out@ =~= "Invalid rule type: "@ + render_rule(rule_type@) + " "@ + msg@);
                out
            },
            ValidationError::MissingRequiredRule { rule_type } => {
                let rendered = rule_to_polar(rule_type);
                let out = String::new().concat("Missing implementation for required rule type ")
                    .concat(rendered.as_str());
                assert(out@ =~= "Missing implementation for required rule type "@ + render_rule(
                    rule_type@,
                ));
                out
            },
            ValidationError::UnregisteredClass { term } => {
                let rendered = crate::fmt::term_to_polar(term);
                let out = String::new().concat("Unregistered class: ").concat(rendered.as_str());
                assert(out@ =~= "Unregistered class: "@ + render_term(term@));
                out
            },
        }
    }

    /// The span of the rule or term the error cites, if it carries one.
    pub fn span(&self) -> (r: Option<Span>)
        ensures
            r == spec_validation_span(self@),
    {
        match self {
            ValidationError::InvalidRule { rule, .. } => rule.span,
            ValidationError::InvalidRuleType { rule_type, .. } => rule_type.span,
            ValidationError::MissingRequiredRule { rule_type } => rule_type.span,
            ValidationError::UnregisteredClass { term } => term.span,
        }
    }
}

/// The span cited by a validation error.
pub open spec fn spec_validation_span(e: ValidationErrorV) -> Option<Span> {
    match e {
        ValidationErrorV::InvalidRule { rule, .. } => rule.span,
        ValidationErrorV::InvalidRuleType { rule_type, .. } => rule_type.span,
        ValidationErrorV::MissingRequiredRule { rule_type } => rule_type.span,
        ValidationErrorV::UnregisteredClass { term } => term.span,
    }
}

/// A runtime or validation error.
#[derive(Debug)]
pub enum ErrorKind {
    Runtime(RuntimeError),
    Validation(ValidationError),
}

/// View of an error kind.
pub enum ErrorKindV {
    Runtime(RuntimeErrorV),
    Validation(ValidationErrorV),
}

impl View for ErrorKind {
    type V = ErrorKindV;

    open spec fn view(&self) -> ErrorKindV {
        match self {
            ErrorKind::Runtime(e) => ErrorKindV::Runtime(e@),
            ErrorKind::Validation(e) => ErrorKindV::Validation(e@),
        }
    }
}

/// The source context an error cites: the source it points into and the
/// byte range within it.
#[derive(Debug)]
pub struct ErrorContext {
    pub source: Source,
    pub left: u64,
    pub right: u64,
}

/// View of an error context.
pub struct ErrorContextV {
    pub source: SourceV,
    pub left: u64,
    pub right: u64,
}

impl View for ErrorContext {
    type V = ErrorContextV;

    open spec fn view(&self) -> ErrorContextV {
        ErrorContextV { source: self.source@, left: self.left, right: self.right }
    }
}

/// An error together with the source context it cites, when the cited
/// rule or term was parsed from an admitted source.
#[derive(Debug)]
pub struct PolarError {
    pub kind: ErrorKind,
    pub context: Option<ErrorContext>,
}

/// View of an error with context.
pub struct PolarErrorV {
    pub kind: ErrorKindV,
    pub context: Option<ErrorContextV>,
}

impl View for PolarError {
    type V = PolarErrorV;

    open spec fn view(&self) -> PolarErrorV {
        PolarErrorV {
            kind: self.kind@,
            context: match &self.context {
                Some(c) => Some(c@),
                None => None,
            },
        }
    }
}

/// The message of an error: the message of its kind.
pub open spec fn spec_error_message(e: PolarErrorV) -> Seq<char> {
    match e.kind {
        ErrorKindV::Runtime(r) => spec_runtime_message(r),
        ErrorKindV::Validation(v) => spec_validation_message(v),
    }
}

impl PolarError {
    /// An error without source context.
    pub fn new(kind: ErrorKind) -> (r: PolarError)
        ensures
            r@.kind == kind@,
            r@.context is None,
    {
        PolarError { kind, context: None }
    }

    /// Render the error message.
    pub fn message(&self) -> (r: String)
        ensures
            r@ == spec_error_message(self@),
    {
        match &self.kind {
            ErrorKind::Runtime(e) => e.message(),
            ErrorKind::Validation(e) => e.message(),
        }
    }
}

/// One diagnostic reported by rule validation.
#[derive(Debug)]
pub enum Diagnostic {
    Error(PolarError),
}

/// View of a diagnostic.
pub enum DiagnosticV {
    Error(PolarErrorV),
}

impl View for Diagnostic {
    type V = DiagnosticV;

    open spec fn view(&self) -> DiagnosticV {
        match self {
            Diagnostic::Error(e) => DiagnosticV::Error(e@),
        }
    }
}

/// The message of a diagnostic.
pub open spec fn spec_diagnostic_message(d: DiagnosticV) -> Seq<char> {
    match d {
        DiagnosticV::Error(e) => spec_error_message(e),
    }
}

impl Diagnostic {
    /// Render the diagnostic message.
    pub fn message(&self) -> (r: String)
        ensures
            r@ == spec_diagnostic_message(self@),
    {
        match self {
            Diagnostic::Error(e) => e.message(),
        }
    }
}

} // verus!
