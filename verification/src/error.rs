//! The ways in which a schema fails to compile.

use crate::layout::Span;
use vstd::prelude::*;

verus! {

/// Why no layout plan could be made of a schema.
#[derive(Debug, PartialEq, Eq)]
pub enum CompileError {
    /// The schema is malformed at `span`.
    ParseError { span: Span, message: String },
    /// The scalar literal at `span` states no bit count from 1 to 2^32 - 1.
    InvalidScalarWidth { span: Span },
    /// The union at `span` has no options.
    DegenerateUnion { span: Span },
    /// The schema nests elements more than `limit` levels deep.
    SchemaTooDeep { limit: u32 },
}

/// Mathematical value of a [`CompileError`].
pub ghost enum ErrorModel {
    ParseError { span: Span, message: Seq<char> },
    InvalidScalarWidth { span: Span },
    DegenerateUnion { span: Span },
    SchemaTooDeep { limit: nat },
}

impl View for CompileError {
    type V = ErrorModel;

    open spec fn view(&self) -> ErrorModel {
        match self {
            CompileError::ParseError { span, message } => ErrorModel::ParseError {
                span: *span,
                message: message@,
            },
            CompileError::InvalidScalarWidth { span } => ErrorModel::InvalidScalarWidth {
                span: *span,
            },
            CompileError::DegenerateUnion { span } => ErrorModel::DegenerateUnion { span: *span },
            CompileError::SchemaTooDeep { limit } => ErrorModel::SchemaTooDeep {
                limit: *limit as nat,
            },
        }
    }
}

/// Said of a node that stands where an element must.
pub open spec fn expected_element() -> Seq<char> {
    "expected an element"@
}

/// Said of an element that holds nothing but names.
pub open spec fn missing_type() -> Seq<char> {
    "element without a type"@
}

/// Said of an element whose first child after its names is no type.
pub open spec fn unexpected_node() -> Seq<char> {
    "unexpected node in place of a type"@
}

/// Said of a list or vector without a child.
pub open spec fn missing_item() -> Seq<char> {
    "array without an element"@
}

/// Said of a struct that leaves its bundle without any stream.
pub open spec fn empty_struct() -> Seq<char> {
    "struct without members"@
}

} // verus!
