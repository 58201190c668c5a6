//! Registry records for one capability method.
//!
//! A `Method` is the immutable record the extractor writes for one generic
//! algorithm of a capability set: its name, its declared parameters, its
//! return type, whether its result is forwarded verbatim, and which
//! capabilities its result no longer satisfies.  Types and names are kept
//! as opaque strings; `method_validated` says that each such string still
//! re-parses as what it claims to be, and `method_line_safe` that each fits
//! on one registry line.

use vstd::prelude::*;

use crate::reparse::{parses_as_ident, parses_as_type};
use crate::text::spec_line_safe;

verus! {

/// One declared parameter of a capability method.
#[derive(Debug, Clone)]
pub struct Argument {
    pub mutable: bool,
    pub name: String,
    pub expected_type: String,
}

/// Mathematical image of an `Argument`.
pub struct ArgumentV {
    pub mutable: bool,
    pub name: Seq<char>,
    pub expected_type: Seq<char>,
}

impl View for Argument {
    type V = ArgumentV;

    open spec fn view(&self) -> ArgumentV {
        ArgumentV {
            mutable: self.mutable,
            name: self.name@,
            expected_type: self.expected_type@,
        }
    }
}

impl DeepView for Argument {
    type V = ArgumentV;

    open spec fn deep_view(&self) -> ArgumentV {
        self@
    }
}

/// One capability method, as recorded in the registry.
#[derive(Debug, Clone)]
pub struct Method {
    pub comments: Option<String>,
    pub name: String,
    pub args: Vec<Argument>,
    pub return_type: Option<String>,
    pub literal_return: bool,
    pub strips: Vec<String>,
}

/// Mathematical image of a `Method`.
pub struct MethodV {
    pub comments: Option<Seq<char>>,
    pub name: Seq<char>,
    pub args: Seq<ArgumentV>,
    pub return_type: Option<Seq<char>>,
    pub literal_return: bool,
    pub strips: Seq<Seq<char>>,
}

pub open spec fn opt_str_view(o: Option<String>) -> Option<Seq<char>> {
    match o {
        Some(s) => Some(s@),
        None => None,
    }
}

impl View for Method {
    type V = MethodV;

    open spec fn view(&self) -> MethodV {
        MethodV {
            comments: opt_str_view(self.comments),
            name: self.name@,
            args: self.args.deep_view(),
            return_type: opt_str_view(self.return_type),
            literal_return: self.literal_return,
            strips: self.strips.deep_view(),
        }
    }
}

impl DeepView for Method {
    type V = MethodV;

    open spec fn deep_view(&self) -> MethodV {
        self@
    }
}

// ===========================================================================
// Well-formedness
// ===========================================================================
pub open spec fn opt_line_safe(o: Option<Seq<char>>) -> bool {
    match o {
        Some(s) => spec_line_safe(s),
        None => true,
    }
}

/// A recorded name: fits on one line and still parses as an identifier.
pub open spec fn valid_ident_str(s: Seq<char>) -> bool {
    spec_line_safe(s) && parses_as_ident(s)
}

/// A recorded type expression: fits on one line and still parses as a type.
pub open spec fn valid_type_str(s: Seq<char>) -> bool {
    spec_line_safe(s) && parses_as_type(s)
}

pub open spec fn argument_line_safe(a: ArgumentV) -> bool {
    spec_line_safe(a.name) && spec_line_safe(a.expected_type)
}

pub open spec fn argument_validated(a: ArgumentV) -> bool {
    parses_as_ident(a.name) && parses_as_type(a.expected_type)
}

/// Every string of the record fits on one registry line.
pub open spec fn method_line_safe(m: MethodV) -> bool {
    &&& opt_line_safe(m.comments)
    &&& spec_line_safe(m.name)
    &&& forall|i: int| 0 <= i < m.args.len() ==> argument_line_safe(#[trigger] m.args[i])
    &&& opt_line_safe(m.return_type)
    &&& forall|i: int| 0 <= i < m.strips.len() ==> spec_line_safe(#[trigger] m.strips[i])
}

/// Every recorded name and type of the record still re-parses.
pub open spec fn method_validated(m: MethodV) -> bool {
    &&& parses_as_ident(m.name)
    &&& forall|i: int| 0 <= i < m.args.len() ==> argument_validated(#[trigger] m.args[i])
    &&& match m.return_type {
        Some(t) => parses_as_type(t),
        None => true,
    }
}

pub open spec fn method_wf(m: MethodV) -> bool {
    method_line_safe(m) && method_validated(m)
}

} // verus!
