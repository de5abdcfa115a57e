//! The interface graph: the declared items of a library, the types their
//! signatures mention, and the canonical names of the items they refer to.
//!
//! The graph is plain data. Items refer to one another by [`Id`]; a type is a
//! finite tree that owns its parts.

use vstd::prelude::*;
use crate::table::Keyed;

verus! {

/// The identity of an item. Its text starts with the decimal number of the
/// package that defines the item, followed by a colon.
#[derive(Debug, PartialEq, Eq)]
pub struct Id(pub String);

impl View for Id {
    type V = Seq<char>;

    open spec fn view(&self) -> Seq<char> {
        self.0@
    }
}

impl Clone for Id {
    fn clone(&self) -> (r: Self)
        ensures
            r == *self,
    {
        Id(self.0.clone())
    }
}

/// A region of a source file, from a (line, column) pair to another.
#[derive(Debug, PartialEq, Eq)]
pub struct Span {
    pub filename: String,
    pub begin: (usize, usize),
    pub end: (usize, usize),
}

/// What a [`Span`] denotes.
pub struct SpanView {
    pub filename: Seq<char>,
    pub begin: (usize, usize),
    pub end: (usize, usize),
}

impl View for Span {
    type V = SpanView;

    open spec fn view(&self) -> SpanView {
        SpanView { filename: self.filename@, begin: self.begin, end: self.end }
    }
}

impl Clone for Span {
    fn clone(&self) -> (r: Self)
        ensures
            r == *self,
    {
        Span { filename: self.filename.clone(), begin: self.begin, end: self.end }
    }
}

/// What an optional span denotes.
pub open spec fn span_view(span: Option<Span>) -> Option<SpanView> {
    match span {
        Some(s) => Some(s@),
        None => None,
    }
}

/// What an optional reference to a span denotes.
pub open spec fn span_ref_view(span: Option<&Span>) -> Option<SpanView> {
    match span {
        Some(s) => Some(s@),
        None => None,
    }
}

/// The visibility marker that an item carries itself.
#[derive(Clone, Copy, Debug, PartialEq, Eq, Structural)]
pub enum Visibility {
    Public,
    /// No marker: the visibility follows from where the item stands.
    Default,
    Crate,
    Restricted,
}

/// A declared entity of the graph.
#[derive(Debug, PartialEq, Eq)]
pub struct Item {
    pub id: Id,
    /// The number of the package that defines the item.
    pub crate_id: u32,
    pub name: Option<String>,
    pub span: Option<Span>,
    pub visibility: Visibility,
    pub inner: ItemEnum,
}

/// The kind of an item, with what the kind declares.
#[derive(Debug, PartialEq, Eq)]
pub enum ItemEnum {
    Module(Module),
    ExternCrate,
    Import(Import),
    Union(Union),
    Struct(Struct),
    StructField(Type),
    Enum(Enum),
    Variant(Variant),
    Function(Function),
    Trait(Trait),
    TraitAlias,
    Method(Method),
    Impl(Impl),
    Typedef(Typedef),
    OpaqueTy,
    Constant(Constant),
    Static(Static),
    ForeignType,
    Macro,
    ProcMacro,
    PrimitiveType,
    AssocConst { type_: Type },
    AssocType { generics: Generics, bounds: Vec<GenericBound>, default: Option<Type> },
}

#[derive(Debug, PartialEq, Eq)]
pub struct Module {
    /// Whether this module is the root container of its library.
    pub is_crate: bool,
    pub items: Vec<Id>,
}

/// A re-export of another item under a new name.
#[derive(Debug, PartialEq, Eq)]
pub struct Import {
    pub name: String,
    /// The item that is re-exported, where it is known.
    pub id: Option<Id>,
}

#[derive(Debug, PartialEq, Eq)]
pub struct Union {
    pub generics: Generics,
    pub fields: Vec<Id>,
    pub impls: Vec<Id>,
}

#[derive(Debug, PartialEq, Eq)]
pub struct Struct {
    pub generics: Generics,
    pub fields: Vec<Id>,
    pub impls: Vec<Id>,
}

#[derive(Debug, PartialEq, Eq)]
pub struct Enum {
    pub generics: Generics,
    pub variants: Vec<Id>,
    pub impls: Vec<Id>,
}

#[derive(Debug, PartialEq, Eq)]
pub enum Variant {
    Plain,
    Tuple(Vec<Type>),
    Struct(Vec<Id>),
}

#[derive(Debug, PartialEq, Eq)]
pub struct Function {
    pub decl: FnDecl,
    pub generics: Generics,
}

#[derive(Debug, PartialEq, Eq)]
pub struct Method {
    pub decl: FnDecl,
    pub generics: Generics,
}

#[derive(Debug, PartialEq, Eq)]
pub struct Trait {
    pub items: Vec<Id>,
    pub generics: Generics,
    pub bounds: Vec<GenericBound>,
}

/// An implementation block.
#[derive(Debug, PartialEq, Eq)]
pub struct Impl {
    pub generics: Generics,
    /// The trait that the block implements, if it implements one.
    pub trait_: Option<Type>,
    pub items: Vec<Id>,
    /// Whether the block applies to every type that meets a bound rather than
    /// to one concrete type.
    pub blanket: bool,
}

#[derive(Debug, PartialEq, Eq)]
pub struct Typedef {
    pub type_: Type,
    pub generics: Generics,
}

#[derive(Debug, PartialEq, Eq)]
pub struct Constant {
    pub type_: Type,
}

#[derive(Debug, PartialEq, Eq)]
pub struct Static {
    pub type_: Type,
}

/// The signature of a function: named inputs and an optional output.
#[derive(Debug, PartialEq, Eq)]
pub struct FnDecl {
    pub inputs: Vec<(String, Type)>,
    pub output: Option<Type>,
}

#[derive(Debug, PartialEq, Eq)]
pub struct FunctionPointer {
    pub decl: FnDecl,
    pub generic_params: Vec<GenericParamDef>,
}

#[derive(Debug, PartialEq, Eq)]
pub struct Generics {
    pub params: Vec<GenericParamDef>,
    pub where_predicates: Vec<WherePredicate>,
}

#[derive(Debug, PartialEq, Eq)]
pub struct GenericParamDef {
    pub name: String,
    pub kind: GenericParamDefKind,
}

#[derive(Debug, PartialEq, Eq)]
pub enum GenericParamDefKind {
    Lifetime,
    Type { bounds: Vec<GenericBound>, default: Option<Type> },
    Const { type_: Type },
}

#[derive(Debug, PartialEq, Eq)]
pub enum WherePredicate {
    BoundPredicate { type_: Type, bounds: Vec<GenericBound>, generic_params: Vec<GenericParamDef> },
    RegionPredicate { bounds: Vec<GenericBound> },
    EqPredicate { lhs: Type },
}

#[derive(Debug, PartialEq, Eq)]
pub enum GenericBound {
    TraitBound { trait_: Type, generic_params: Vec<GenericParamDef> },
    Outlives,
}

#[derive(Debug, PartialEq, Eq)]
pub enum GenericArgs {
    /// `<'a, 32, B: Copy, C = u32>`
    AngleBracketed { args: Vec<GenericArg>, bindings: Vec<TypeBinding> },
    /// `Fn(A, B) -> C`
    Parenthesized { inputs: Vec<Type>, output: Option<Type> },
}

#[derive(Debug, PartialEq, Eq)]
pub enum GenericArg {
    Lifetime,
    Type(Type),
    Const,
    Infer,
}

#[derive(Debug, PartialEq, Eq)]
pub struct TypeBinding {
    pub name: String,
    pub binding: TypeBindingKind,
}

#[derive(Debug, PartialEq, Eq)]
pub enum TypeBindingKind {
    Equality(Term),
    Constraint(Vec<GenericBound>),
}

#[derive(Debug, PartialEq, Eq)]
pub enum Term {
    Type(Type),
    Constant,
}

/// A type expression.
#[derive(Debug, PartialEq, Eq)]
pub enum Type {
    /// A reference to a declared item, such as a structure or a trait.
    ResolvedPath {
        name: String,
        id: Id,
        args: Option<Box<GenericArgs>>,
        param_names: Vec<GenericBound>,
    },
    /// A type parameter.
    Generic(String),
    /// A built-in type.
    Primitive(String),
    FunctionPointer(Box<FunctionPointer>),
    Tuple(Vec<Type>),
    Slice(Box<Type>),
    Array { type_: Box<Type> },
    ImplTrait(Vec<GenericBound>),
    /// A placeholder for a type that was left to inference.
    Infer,
    RawPointer { type_: Box<Type> },
    BorrowedRef { type_: Box<Type> },
    /// `<Type as Trait>::Name`
    QualifiedPath { name: String, self_type: Box<Type>, trait_: Box<Type> },
}

/// The canonical name of an item, as a sequence of segments.
#[derive(Debug, PartialEq, Eq)]
pub struct ItemSummary {
    pub id: Id,
    pub path: Vec<String>,
}

/// The interface graph of one library.
#[derive(Debug, PartialEq, Eq)]
pub struct Crate {
    /// The identity of the root module.
    pub root: Id,
    /// The items of the graph, a map from identities written down as a
    /// list: each identity is meant to stand once. Where one stands twice,
    /// the first item is the one found.
    pub index: Vec<Item>,
    /// The canonical names of items, of this library and of others, a map
    /// from identities in the same way.
    pub paths: Vec<ItemSummary>,
}

/// An item is found by its identity.
impl Keyed for Item {
    open spec fn key(&self) -> Seq<char> {
        self.id@
    }

    fn key_text(&self) -> (s: &str) {
        self.id.0.as_str()
    }
}

/// A canonical name is found by the identity of the item that it names.
impl Keyed for ItemSummary {
    open spec fn key(&self) -> Seq<char> {
        self.id@
    }

    fn key_text(&self) -> (s: &str) {
        self.id.0.as_str()
    }
}

} // verus!
