//! Data model shared by the tag parser, the subtag validator and the
//! concept builder: concepts with typed properties, severity-tagged
//! diagnostics, and the request/response shapes of the engine interface.
//!
//! Each executable type has a mathematical view (`ConceptView`,
//! `DetailView`, ...) over `Seq<char>` values; every contract in the crate
//! is stated over these views.

use vstd::prelude::*;

verus! {

/// A typed value carried by a property or a diagnostic. Only the
/// `ValueString` variant is produced by this crate; the other variants
/// exist for interoperability with the broader code-system model.
#[derive(Debug, Clone, PartialEq, Eq)]
pub enum ValueX {
    ValueString(String),
    ValueDateTime(String),
    ValueCode(String),
    ValueCoding(Coding),
    ValueDecimal(String),
}

/// A reference into another code system.
#[derive(Debug, Clone, PartialEq, Eq)]
pub struct Coding {
    pub system: Option<String>,
    pub code: Option<String>,
    pub display: Option<String>,
}

/// One named, typed property of a concept.
#[derive(Debug, Clone, PartialEq, Eq)]
pub struct Property {
    pub code: String,
    pub value: ValueX,
}

/// A structured, named entity with an optional display label and typed
/// properties; here it represents a parsed tag's decomposition, and also
/// what the terminology lookup collaborator returns for a known code.
#[derive(Debug, Clone, PartialEq, Eq)]
pub struct Concept {
    pub code: String,
    pub display: Option<String>,
    pub properties: Vec<Property>,
}

/// Criticality tier of a diagnostic, in its fixed sort order.
#[derive(Debug, Clone, Copy, PartialEq, Eq)]
pub enum Severity {
    Error,
    Warning,
    Information,
    Success,
}

/// One severity-tagged diagnostic about a subtag class.
#[derive(Debug, Clone, PartialEq, Eq)]
pub struct ParseDetail {
    pub severity: Severity,
    pub key: String,
    pub value: ValueX,
}

/// Result of parsing a tag: diagnostics, and the concept when the
/// syntactic parse succeeded.
#[derive(Debug, Clone, PartialEq, Eq)]
pub struct ParseResponse {
    pub details: Vec<ParseDetail>,
    pub concept: Option<Concept>,
}

/// Request to the lookup collaborator: a code, and optionally the names
/// of the properties the caller wants back.
#[derive(Debug, Clone, PartialEq, Eq)]
pub struct LookupRequest {
    pub code: String,
    pub properties: Option<Vec<String>>,
}

/// Answer of the lookup collaborator: the concept registered under the
/// requested code, if any.
#[derive(Debug, Clone, PartialEq, Eq)]
pub struct LookupResponse {
    pub concept: Option<Concept>,
}

/// Request for a subsumption test between two codes.
#[derive(Debug, Clone, PartialEq, Eq)]
pub struct SubsumesRequest {
    pub ancestor: String,
    pub descendant: String,
}

/// Answer of a subsumption test.
#[derive(Debug, Clone, PartialEq, Eq)]
pub struct SubsumesResponse {
    pub subsumes: bool,
}

/// Request to parse a tag.
#[derive(Debug, Clone, PartialEq, Eq)]
pub struct ParseRequest {
    pub code: String,
    pub properties: Option<Vec<String>>,
}

/// Mathematical view of a `Coding`.
#[verifier::ext_equal]
pub struct CodingView {
    pub system: Option<Seq<char>>,
    pub code: Option<Seq<char>>,
    pub display: Option<Seq<char>>,
}

/// Mathematical view of a `ValueX`.
#[verifier::ext_equal]
pub enum ValueXView {
    ValueString(Seq<char>),
    ValueDateTime(Seq<char>),
    ValueCode(Seq<char>),
    ValueCoding(CodingView),
    ValueDecimal(Seq<char>),
}

/// Mathematical view of a `Property`.
#[verifier::ext_equal]
pub struct PropertyView {
    pub code: Seq<char>,
    pub value: ValueXView,
}

/// Mathematical view of a `Concept`.
#[verifier::ext_equal]
pub struct ConceptView {
    pub code: Seq<char>,
    pub display: Option<Seq<char>>,
    pub properties: Seq<PropertyView>,
}

/// Mathematical view of a `ParseDetail`.
#[verifier::ext_equal]
pub struct DetailView {
    pub severity: Severity,
    pub key: Seq<char>,
    pub value: ValueXView,
}

/// Mathematical view of a `ParseResponse`.
#[verifier::ext_equal]
pub struct ResponseView {
    pub details: Seq<DetailView>,
    pub concept: Option<ConceptView>,
}

/// View of an optional string as an optional character sequence.
pub open spec fn opt_str_view(o: Option<String>) -> Option<Seq<char>> {
    match o {
        Option::Some(s) => Option::Some(s@),
        Option::None => Option::None,
    }
}

impl View for Coding {
    type V = CodingView;

    open spec fn view(&self) -> CodingView {
        CodingView {
            system: opt_str_view(self.system),
            code: opt_str_view(self.code),
            display: opt_str_view(self.display),
        }
    }
}

impl DeepView for Coding {
    type V = CodingView;

    open spec fn deep_view(&self) -> CodingView {
        self.view()
    }
}

impl View for ValueX {
    type V = ValueXView;

    open spec fn view(&self) -> ValueXView {
        match self {
            ValueX::ValueString(s) => ValueXView::ValueString(s@),
            ValueX::ValueDateTime(s) => ValueXView::ValueDateTime(s@),
            ValueX::ValueCode(s) => ValueXView::ValueCode(s@),
            ValueX::ValueCoding(c) => ValueXView::ValueCoding(c@),
            ValueX::ValueDecimal(s) => ValueXView::ValueDecimal(s@),
        }
    }
}

impl DeepView for ValueX {
    type V = ValueXView;

    open spec fn deep_view(&self) -> ValueXView {
        self.view()
    }
}

impl View for Property {
    type V = PropertyView;

    open spec fn view(&self) -> PropertyView {
        PropertyView { code: self.code@, value: self.value@ }
    }
}

impl DeepView for Property {
    type V = PropertyView;

    open spec fn deep_view(&self) -> PropertyView {
        self.view()
    }
}

impl View for Concept {
    type V = ConceptView;

    open spec fn view(&self) -> ConceptView {
        ConceptView {
            code: self.code@,
            display: opt_str_view(self.display),
            properties: self.properties.deep_view(),
        }
    }
}

impl DeepView for Concept {
    type V = ConceptView;

    open spec fn deep_view(&self) -> ConceptView {
        self.view()
    }
}

impl View for ParseDetail {
    type V = DetailView;

    open spec fn view(&self) -> DetailView {
        DetailView { severity: self.severity, key: self.key@, value: self.value@ }
    }
}

impl DeepView for ParseDetail {
    type V = DetailView;

    open spec fn deep_view(&self) -> DetailView {
        self.view()
    }
}

impl View for ParseResponse {
    type V = ResponseView;

    open spec fn view(&self) -> ResponseView {
        ResponseView { details: self.details.deep_view(), concept: self.concept.deep_view() }
    }
}

impl DeepView for ParseResponse {
    type V = ResponseView;

    open spec fn deep_view(&self) -> ResponseView {
        self.view()
    }
}

} // verus!
