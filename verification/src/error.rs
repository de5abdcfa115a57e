//! Violations of the policy, the order in which they are reported, and the
//! faults that end a traversal.

use vstd::prelude::*;
use crate::graph::{Id, Span, SpanView, span_ref_view, span_view};
use crate::text::{
    Order, compare_text, lemma_text_less_irreflexive, lemma_text_less_total,
    lemma_text_less_transitive, text_less,
};

verus! {

/// The place in a declaration where a type is used.
#[derive(Debug, PartialEq, Eq)]
pub enum ErrorLocation {
    AssocType,
    ArgumentNamed(String),
    ClosureInput,
    ClosureOutput,
    ConstGeneric,
    Constant,
    EnumTupleEntry,
    GenericArg,
    GenericDefaultBinding,
    ImplementedTrait,
    QualifiedSelfType,
    QualifiedSelfTypeAsTrait,
    ReExport,
    ReturnValue,
    Static,
    StructField,
    TraitBound,
    TypeDef,
    WhereBound,
}

/// What an [`ErrorLocation`] denotes.
pub enum ErrorLocationView {
    AssocType,
    ArgumentNamed(Seq<char>),
    ClosureInput,
    ClosureOutput,
    ConstGeneric,
    Constant,
    EnumTupleEntry,
    GenericArg,
    GenericDefaultBinding,
    ImplementedTrait,
    QualifiedSelfType,
    QualifiedSelfTypeAsTrait,
    ReExport,
    ReturnValue,
    Static,
    StructField,
    TraitBound,
    TypeDef,
    WhereBound,
}

impl View for ErrorLocation {
    type V = ErrorLocationView;

    open spec fn view(&self) -> ErrorLocationView {
        match self {
            ErrorLocation::AssocType => ErrorLocationView::AssocType,
            ErrorLocation::ArgumentNamed(name) => ErrorLocationView::ArgumentNamed(name@),
            ErrorLocation::ClosureInput => ErrorLocationView::ClosureInput,
            ErrorLocation::ClosureOutput => ErrorLocationView::ClosureOutput,
            ErrorLocation::ConstGeneric => ErrorLocationView::ConstGeneric,
            ErrorLocation::Constant => ErrorLocationView::Constant,
            ErrorLocation::EnumTupleEntry => ErrorLocationView::EnumTupleEntry,
            ErrorLocation::GenericArg => ErrorLocationView::GenericArg,
            ErrorLocation::GenericDefaultBinding => ErrorLocationView::GenericDefaultBinding,
            ErrorLocation::ImplementedTrait => ErrorLocationView::ImplementedTrait,
            ErrorLocation::QualifiedSelfType => ErrorLocationView::QualifiedSelfType,
            ErrorLocation::QualifiedSelfTypeAsTrait => ErrorLocationView::QualifiedSelfTypeAsTrait,
            ErrorLocation::ReExport => ErrorLocationView::ReExport,
            ErrorLocation::ReturnValue => ErrorLocationView::ReturnValue,
            ErrorLocation::Static => ErrorLocationView::Static,
            ErrorLocation::StructField => ErrorLocationView::StructField,
            ErrorLocation::TraitBound => ErrorLocationView::TraitBound,
            ErrorLocation::TypeDef => ErrorLocationView::TypeDef,
            ErrorLocation::WhereBound => ErrorLocationView::WhereBound,
        }
    }
}

impl ErrorLocationView {
    /// The position of the kind of use among all kinds.
    pub open spec fn rank(self) -> nat {
        match self {
            ErrorLocationView::AssocType => 0,
            ErrorLocationView::ArgumentNamed(_) => 1,
            ErrorLocationView::ClosureInput => 2,
            ErrorLocationView::ClosureOutput => 3,
            ErrorLocationView::ConstGeneric => 4,
            ErrorLocationView::Constant => 5,
            ErrorLocationView::EnumTupleEntry => 6,
            ErrorLocationView::GenericArg => 7,
            ErrorLocationView::GenericDefaultBinding => 8,
            ErrorLocationView::ImplementedTrait => 9,
            ErrorLocationView::QualifiedSelfType => 10,
            ErrorLocationView::QualifiedSelfTypeAsTrait => 11,
            ErrorLocationView::ReExport => 12,
            ErrorLocationView::ReturnValue => 13,
            ErrorLocationView::Static => 14,
            ErrorLocationView::StructField => 15,
            ErrorLocationView::TraitBound => 16,
            ErrorLocationView::TypeDef => 17,
            ErrorLocationView::WhereBound => 18,
        }
    }

    /// The name of the argument, for a use as a named argument.
    pub open spec fn argument(self) -> Seq<char> {
        match self {
            ErrorLocationView::ArgumentNamed(name) => name,
            _ => Seq::empty(),
        }
    }
}

/// A kind of use has no more to it than its rank and the argument's name.
pub proof fn lemma_location_determined(a: ErrorLocationView, b: ErrorLocationView)
    requires
        a.rank() == b.rank(),
        a.argument() == b.argument(),
    ensures
        a == b,
{
}

impl ErrorLocation {
    /// The position of the kind of use among all kinds.
    pub fn rank(&self) -> (r: u8)
        ensures
            r == self@.rank(),
    {
        match self {
            ErrorLocation::AssocType => 0,
            ErrorLocation::ArgumentNamed(_) => 1,
            ErrorLocation::ClosureInput => 2,
            ErrorLocation::ClosureOutput => 3,
            ErrorLocation::ConstGeneric => 4,
            ErrorLocation::Constant => 5,
            ErrorLocation::EnumTupleEntry => 6,
            ErrorLocation::GenericArg => 7,
            ErrorLocation::GenericDefaultBinding => 8,
            ErrorLocation::ImplementedTrait => 9,
            ErrorLocation::QualifiedSelfType => 10,
            ErrorLocation::QualifiedSelfTypeAsTrait => 11,
            ErrorLocation::ReExport => 12,
            ErrorLocation::ReturnValue => 13,
            ErrorLocation::Static => 14,
            ErrorLocation::StructField => 15,
            ErrorLocation::TraitBound => 16,
            ErrorLocation::TypeDef => 17,
            ErrorLocation::WhereBound => 18,
        }
    }
}

impl Clone for ErrorLocation {
    fn clone(&self) -> (r: Self)
        ensures
            r == *self,
    {
        match self {
            ErrorLocation::AssocType => ErrorLocation::AssocType,
            ErrorLocation::ArgumentNamed(name) => ErrorLocation::ArgumentNamed(name.clone()),
            ErrorLocation::ClosureInput => ErrorLocation::ClosureInput,
            ErrorLocation::ClosureOutput => ErrorLocation::ClosureOutput,
            ErrorLocation::ConstGeneric => ErrorLocation::ConstGeneric,
            ErrorLocation::Constant => ErrorLocation::Constant,
            ErrorLocation::EnumTupleEntry => ErrorLocation::EnumTupleEntry,
            ErrorLocation::GenericArg => ErrorLocation::GenericArg,
            ErrorLocation::GenericDefaultBinding => ErrorLocation::GenericDefaultBinding,
            ErrorLocation::ImplementedTrait => ErrorLocation::ImplementedTrait,
            ErrorLocation::QualifiedSelfType => ErrorLocation::QualifiedSelfType,
            ErrorLocation::QualifiedSelfTypeAsTrait => ErrorLocation::QualifiedSelfTypeAsTrait,
            ErrorLocation::ReExport => ErrorLocation::ReExport,
            ErrorLocation::ReturnValue => ErrorLocation::ReturnValue,
            ErrorLocation::Static => ErrorLocation::Static,
            ErrorLocation::StructField => ErrorLocation::StructField,
            ErrorLocation::TraitBound => ErrorLocation::TraitBound,
            ErrorLocation::TypeDef => ErrorLocation::TypeDef,
            ErrorLocation::WhereBound => ErrorLocation::WhereBound,
        }
    }
}

/// A reference to an external type that the policy does not allow.
#[derive(Debug, PartialEq, Eq)]
pub struct ValidationError {
    /// The canonical name of the type that is referred to.
    pub external_type: String,
    /// The kind of use.
    pub what: ErrorLocation,
    /// The path of the declaration that refers to the type.
    pub in_what_type: String,
    /// Where that declaration stands in the source, if that is known.
    pub location: Option<Span>,
}

/// What a [`ValidationError`] denotes.
pub struct ErrorView {
    pub external_type: Seq<char>,
    pub what: ErrorLocationView,
    pub in_what_type: Seq<char>,
    pub location: Option<SpanView>,
}

impl View for ValidationError {
    type V = ErrorView;

    open spec fn view(&self) -> ErrorView {
        ErrorView {
            external_type: self.external_type@,
            what: self.what@,
            in_what_type: self.in_what_type@,
            location: span_view(self.location),
        }
    }
}

impl ValidationError {
    /// The violation that `external_type` is used as `what` in the declaration at
    /// path `in_what_type`.
    pub fn unapproved_external_type_ref(
        external_type: String,
        what: &ErrorLocation,
        in_what_type: String,
        location: Option<&Span>,
    ) -> (e: Self)
        ensures
            e@ == (ErrorView {
                external_type: external_type@,
                what: what@,
                in_what_type: in_what_type@,
                location: span_ref_view(location),
            }),
    {
        let location = match location {
            Some(s) => Some(s.clone()),
            None => None,
        };
        ValidationError { external_type, what: what.clone(), in_what_type, location }
    }

    /// The canonical name of the type that is referred to.
    pub fn external_type(&self) -> (s: &str)
        ensures
            s@ == self@.external_type,
    {
        self.external_type.as_str()
    }

    /// Where the referring declaration stands in the source.
    pub fn location(&self) -> (s: Option<&Span>)
        ensures
            span_ref_view(s) == self@.location,
    {
        self.location.as_ref()
    }
}

/// Strict order of source regions: by file name, then by where they begin,
/// then by where they end.
pub open spec fn span_less(a: SpanView, b: SpanView) -> bool {
    if a.filename != b.filename {
        text_less(a.filename, b.filename)
    } else if a.begin.0 != b.begin.0 {
        a.begin.0 < b.begin.0
    } else if a.begin.1 != b.begin.1 {
        a.begin.1 < b.begin.1
    } else if a.end.0 != b.end.0 {
        a.end.0 < b.end.0
    } else {
        a.end.1 < b.end.1
    }
}

/// Strict order of optional source regions: an unknown region comes first.
pub open spec fn location_less(a: Option<SpanView>, b: Option<SpanView>) -> bool {
    match (a, b) {
        (None, None) => false,
        (None, Some(_)) => true,
        (Some(_), None) => false,
        (Some(x), Some(y)) => span_less(x, y),
    }
}

/// Strict order of kinds of use: by rank, then by the argument's name.
pub open spec fn what_less(a: ErrorLocationView, b: ErrorLocationView) -> bool {
    if a.rank() != b.rank() {
        a.rank() < b.rank()
    } else {
        text_less(a.argument(), b.argument())
    }
}

/// The order in which violations are reported: by the name of the type,
/// then by the source location, then by the kind of use, then by the path of
/// the referring declaration.
pub open spec fn error_less(a: ErrorView, b: ErrorView) -> bool {
    if a.external_type != b.external_type {
        text_less(a.external_type, b.external_type)
    } else if a.location != b.location {
        location_less(a.location, b.location)
    } else if a.what != b.what {
        what_less(a.what, b.what)
    } else {
        text_less(a.in_what_type, b.in_what_type)
    }
}

proof fn lemma_text_order(a: Seq<char>, b: Seq<char>, c: Seq<char>)
    ensures
        !text_less(a, a),
        !(text_less(a, b) && text_less(b, a)),
        text_less(a, b) && text_less(b, c) ==> text_less(a, c),
        a == b || text_less(a, b) || text_less(b, a),
{
    lemma_text_less_irreflexive(a);
    lemma_text_less_total(a, b);
    if text_less(a, b) && text_less(b, a) {
        lemma_text_less_transitive(a, b, a);
    }
    if text_less(a, b) && text_less(b, c) {
        lemma_text_less_transitive(a, b, c);
    }
}

proof fn lemma_span_order(a: SpanView, b: SpanView, c: SpanView)
    ensures
        !span_less(a, a),
        !(span_less(a, b) && span_less(b, a)),
        span_less(a, b) && span_less(b, c) ==> span_less(a, c),
        a == b || span_less(a, b) || span_less(b, a),
{
    lemma_text_order(a.filename, b.filename, c.filename);
    lemma_text_order(b.filename, c.filename, a.filename);
    lemma_text_order(a.filename, c.filename, b.filename);
}

proof fn lemma_location_order(a: Option<SpanView>, b: Option<SpanView>, c: Option<SpanView>)
    ensures
        !location_less(a, a),
        !(location_less(a, b) && location_less(b, a)),
        location_less(a, b) && location_less(b, c) ==> location_less(a, c),
        a == b || location_less(a, b) || location_less(b, a),
{
    if a is Some && b is Some && c is Some {
        lemma_span_order(a->0, b->0, c->0);
    } else if a is Some && b is Some {
        lemma_span_order(a->0, b->0, a->0);
    } else if a is Some {
        lemma_span_order(a->0, a->0, a->0);
    }
}

proof fn lemma_what_order(a: ErrorLocationView, b: ErrorLocationView, c: ErrorLocationView)
    ensures
        !what_less(a, a),
        !(what_less(a, b) && what_less(b, a)),
        what_less(a, b) && what_less(b, c) ==> what_less(a, c),
        a == b || what_less(a, b) || what_less(b, a),
{
    lemma_text_order(a.argument(), b.argument(), c.argument());
    if a.rank() == b.rank() && a.argument() == b.argument() {
        lemma_location_determined(a, b);
    }
}

/// No violation comes before itself.
pub proof fn lemma_error_less_irreflexive(a: ErrorView)
    ensures
        !error_less(a, a),
{
    lemma_text_order(a.in_what_type, a.in_what_type, a.in_what_type);
}

/// Of two violations at most one comes before the other.
pub proof fn lemma_error_less_asymmetric(a: ErrorView, b: ErrorView)
    ensures
        !(error_less(a, b) && error_less(b, a)),
{
    lemma_text_order(a.external_type, b.external_type, a.external_type);
    lemma_location_order(a.location, b.location, a.location);
    lemma_what_order(a.what, b.what, a.what);
    lemma_text_order(a.in_what_type, b.in_what_type, a.in_what_type);
}

/// The order of violations is transitive.
pub proof fn lemma_error_less_transitive(a: ErrorView, b: ErrorView, c: ErrorView)
    requires
        error_less(a, b),
        error_less(b, c),
    ensures
        error_less(a, c),
{
    lemma_text_order(a.external_type, b.external_type, c.external_type);
    lemma_text_order(b.external_type, c.external_type, a.external_type);
    lemma_location_order(a.location, b.location, c.location);
    lemma_location_order(b.location, c.location, a.location);
    lemma_what_order(a.what, b.what, c.what);
    lemma_what_order(b.what, c.what, a.what);
    lemma_text_order(a.in_what_type, b.in_what_type, c.in_what_type);
    lemma_text_order(b.in_what_type, c.in_what_type, a.in_what_type);
}

/// Any two violations are equal or ordered one way or the other.
pub proof fn lemma_error_less_total(a: ErrorView, b: ErrorView)
    ensures
        a == b || error_less(a, b) || error_less(b, a),
{
    lemma_text_order(a.external_type, b.external_type, a.external_type);
    lemma_location_order(a.location, b.location, a.location);
    lemma_what_order(a.what, b.what, a.what);
    lemma_text_order(a.in_what_type, b.in_what_type, a.in_what_type);
}

fn compare_numbers(a: usize, b: usize) -> (o: Order)
    ensures
        o is Less <==> a < b,
        o is Equal <==> a == b,
        o is Greater <==> b < a,
{
    if a < b {
        Order::Less
    } else if b < a {
        Order::Greater
    } else {
        Order::Equal
    }
}

/// Compares two source regions.
pub fn compare_spans(a: &Span, b: &Span) -> (o: Order)
    ensures
        o is Less <==> span_less(a@, b@),
        o is Equal <==> a@ == b@,
        o is Greater <==> span_less(b@, a@),
{
    proof {
        lemma_span_order(a@, b@, a@);
    }
    match compare_text(a.filename.as_str(), b.filename.as_str()) {
        Order::Equal => match compare_numbers(a.begin.0, b.begin.0) {
            Order::Equal => match compare_numbers(a.begin.1, b.begin.1) {
                Order::Equal => match compare_numbers(a.end.0, b.end.0) {
                    Order::Equal => compare_numbers(a.end.1, b.end.1),
                    o => o,
                },
                o => o,
            },
            o => o,
        },
        o => o,
    }
}

/// Compares two optional source regions.
pub fn compare_locations(a: Option<&Span>, b: Option<&Span>) -> (o: Order)
    ensures
        o is Less <==> location_less(span_ref_view(a), span_ref_view(b)),
        o is Equal <==> span_ref_view(a) == span_ref_view(b),
        o is Greater <==> location_less(span_ref_view(b), span_ref_view(a)),
{
    match (a, b) {
        (None, None) => Order::Equal,
        (None, Some(_)) => Order::Less,
        (Some(_), None) => Order::Greater,
        (Some(x), Some(y)) => compare_spans(x, y),
    }
}

/// Compares two kinds of use.
pub fn compare_uses(a: &ErrorLocation, b: &ErrorLocation) -> (o: Order)
    ensures
        o is Less <==> what_less(a@, b@),
        o is Equal <==> a@ == b@,
        o is Greater <==> what_less(b@, a@),
{
    proof {
        lemma_what_order(a@, b@, a@);
    }
    let x = a.rank();
    let y = b.rank();
    if x < y {
        Order::Less
    } else if y < x {
        Order::Greater
    } else {
        match (a, b) {
            (ErrorLocation::ArgumentNamed(m), ErrorLocation::ArgumentNamed(n)) => compare_text(
                m.as_str(),
                n.as_str(),
            ),
            _ => {
                proof {
                    lemma_location_determined(a@, b@);
                }
                Order::Equal
            },
        }
    }
}

/// Compares two violations in the order in which they are reported.
pub fn compare_errors(a: &ValidationError, b: &ValidationError) -> (o: Order)
    ensures
        o is Less <==> error_less(a@, b@),
        o is Equal <==> a@ == b@,
        o is Greater <==> error_less(b@, a@),
{
    proof {
        lemma_error_less_asymmetric(a@, b@);
        lemma_error_less_irreflexive(a@);
    }
    match compare_text(a.external_type.as_str(), b.external_type.as_str()) {
        Order::Equal => match compare_locations(a.location.as_ref(), b.location.as_ref()) {
            Order::Equal => match compare_uses(&a.what, &b.what) {
                Order::Equal => compare_text(a.in_what_type.as_str(), b.in_what_type.as_str()),
                o => o,
            },
            o => o,
        },
        o => o,
    }
}

/// A language feature whose declarations the traversal cannot examine.
#[derive(Clone, Copy, Debug, PartialEq, Eq, Structural)]
pub enum UnstableFeature {
    /// Types that are declared but defined elsewhere.
    ExternTypes,
    /// Type aliases that stand for an unnamed implementation of a trait.
    TypeAliasImplTrait,
    /// Aliases of traits.
    TraitAlias,
}

/// A fault that ends a traversal. It says that the graph is malformed or that
/// the traversal cannot handle it, not that the policy is violated.
#[derive(Debug, PartialEq, Eq)]
pub enum VisitError {
    /// The identity of the root is not in the index.
    RootNotFound,
    /// The root item has no name.
    RootUnnamed,
    /// No module is marked as the root container.
    RootModuleMissing,
    /// More than one module is marked as the root container.
    RootModuleAmbiguous,
    /// An item refers to an identity that is not in the index.
    ItemNotFound(Id),
    /// An item that the path has to name has no name.
    UnnamedItem(Id),
    /// An item is listed as an implementation block and is none.
    NotAnImpl(Id),
    /// An item belongs to a language feature that is not supported.
    UnsupportedFeature(UnstableFeature),
    /// A type was left to inference, which a complete graph does not hold.
    InferredType,
    /// A type refers to an item without a canonical name that does not
    /// belong to the library under inspection.
    UnresolvedReference(Id),
    /// Items are nested more deeply than the traversal is allowed to go.
    DepthLimitExceeded,
}

} // verus!
