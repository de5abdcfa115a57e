//! What a traversal of the interface graph yields, stated as mathematics: for
//! each kind of item and each form of type, the violations that walking it
//! collects and the fault, if any, at which the walk ends.

use vstd::prelude::*;
use crate::collector::is_report_of;
use crate::config::Config;
use crate::error::{ErrorLocationView, ErrorView, UnstableFeature, VisitError};
use crate::graph::{
    Enum, FnDecl, GenericArg, GenericArgs, GenericBound, GenericParamDef, GenericParamDefKind,
    Generics, Id, Impl, Import, Item, ItemEnum, ItemSummary, Struct, Term, Trait, Type,
    TypeBinding, TypeBindingKind, Union, Variant, Visibility, WherePredicate, span_view,
};
use crate::path::{ComponentType, ComponentView, PathView, last_span_of, last_type_of, render};
use crate::table::find;
use crate::text::{decimal, join, separator, texts};

verus! {

/// What a traversal works on: the policy, the library under inspection, the
/// items of the graph and the canonical names.
pub struct Env {
    pub config: Config,
    /// The number of the package under inspection.
    pub root_crate_id: u32,
    /// The name of the library under inspection.
    pub root_crate_name: Seq<char>,
    pub index: Seq<Item>,
    pub paths: Seq<ItemSummary>,
}

/// The result of walking a part of the graph: the violations found, and the
/// fault at which the walk ended, if it ended early.
pub struct Outcome {
    pub violations: Set<ErrorView>,
    pub fault: Option<VisitError>,
}

impl Outcome {
    /// Nothing found, no fault.
    pub open spec fn clean() -> Outcome {
        Outcome { violations: Set::empty(), fault: None }
    }

    /// Nothing found before the walk ended in a fault.
    pub open spec fn failed(fault: VisitError) -> Outcome {
        Outcome { violations: Set::empty(), fault: Some(fault) }
    }

    /// One violation found, no fault.
    pub open spec fn found(violation: ErrorView) -> Outcome {
        Outcome { violations: set![violation], fault: None }
    }

    /// One walk after another: the second takes place only if the first
    /// ended without a fault.
    pub open spec fn followed_by(self, next: Outcome) -> Outcome {
        if self.fault is Some {
            self
        } else {
            Outcome { violations: self.violations.union(next.violations), fault: next.fault }
        }
    }

    /// The fault as the result of a function.
    pub open spec fn result(self) -> Result<(), VisitError> {
        match self.fault {
            Some(fault) => Err(fault),
            None => Ok(()),
        }
    }
}

/// Whether a walk went as `outcome` says: the violations of the outcome were
/// added to those found `before`, and `result` is the fault of the outcome.
pub open spec fn walked(
    before: Set<ErrorView>,
    after: Set<ErrorView>,
    result: Result<(), VisitError>,
    outcome: Outcome,
) -> bool {
    &&& after =~= before.union(outcome.violations)
    &&& result == outcome.result()
}

/// Whether a walk that has come from `before` to `now` and has `rest` to go
/// ends as the `whole` walk does.
pub open spec fn on_course(
    before: Set<ErrorView>,
    whole: Outcome,
    now: Set<ErrorView>,
    rest: Outcome,
) -> bool {
    &&& before.union(whole.violations) =~= now.union(rest.violations)
    &&& whole.fault == rest.fault
}

/// How the visibility of an item is judged when it is visited.
#[derive(Clone, Copy, Debug, PartialEq, Eq, Structural)]
pub enum VisibilityCheck {
    /// The item is visited only if it is public where it stands.
    Default,
    /// The item counts as public: it is the target of a public re-export.
    AssumePublic,
}

/// Whether an item that stands at the end of `path` takes its visibility
/// from what holds it: a variant from its enumeration, a field of a variant
/// from the variant, any member of a trait from the trait.
pub open spec fn inherits_visibility(path: PathView, item: Item) -> bool {
    match last_type_of(path) {
        Some(ComponentType::Enum) => item.inner is Variant,
        Some(ComponentType::EnumVariant) => item.inner is StructField,
        Some(ComponentType::Trait) => true,
        _ => false,
    }
}

/// Whether an item that stands at the end of `path` is public. An item that
/// takes its visibility from what holds it is as public as that, whatever
/// marker it carries itself. Any other item is public if it is marked so.
pub open spec fn is_public_at(path: PathView, item: Item) -> bool {
    inherits_visibility(path, item) || item.visibility == Visibility::Public
}

/// The canonical name of an item, if the graph records one.
pub open spec fn canonical_name(env: Env, id: Id) -> Option<Seq<char>> {
    match find(env.paths, id@) {
        Some(summary) => Some(join(texts(summary.path@), separator())),
        None => None,
    }
}

/// The text with which the identities of the inspected library's own items
/// start.
pub open spec fn root_prefix(root_crate_id: u32) -> Seq<char> {
    decimal(root_crate_id as nat).push(':')
}

/// Whether an identity belongs to the library under inspection.
pub open spec fn in_root_crate(env: Env, id: Id) -> bool {
    root_prefix(env.root_crate_id).is_prefix_of(id@)
}

/// The violation that the type named `name` is used as `what` at `path`.
pub open spec fn violation(path: PathView, what: ErrorLocationView, name: Seq<char>) -> ErrorView {
    ErrorView {
        external_type: name,
        what,
        in_what_type: render(path),
        location: last_span_of(path),
    }
}

/// The check of one reference to an item. A reference with a canonical name
/// is a violation unless the policy allows the name. One without is accepted
/// if it belongs to the library under inspection, and a fault otherwise.
pub open spec fn check_outcome(
    env: Env,
    path: PathView,
    what: ErrorLocationView,
    id: Id,
) -> Outcome {
    match canonical_name(env, id) {
        Some(name) => if env.config.allows(env.root_crate_name, name) {
            Outcome::clean()
        } else {
            Outcome::found(violation(path, what, name))
        },
        None => if in_root_crate(env, id) {
            Outcome::clean()
        } else {
            Outcome::failed(VisitError::UnresolvedReference(id))
        },
    }
}

/// The walk of a type that is used as `what`.
pub open spec fn type_outcome(
    env: Env,
    path: PathView,
    what: ErrorLocationView,
    typ: Type,
) -> Outcome
    decreases typ, 0nat,
{
    match typ {
        Type::ResolvedPath { name, id, args, param_names } => check_outcome(
            env,
            path,
            what,
            id,
        ).followed_by(
            match args {
                Some(args) => generic_args_outcome(env, path, *args),
                None => Outcome::clean(),
            },
        ).followed_by(bounds_outcome(env, path, ErrorLocationView::TraitBound, param_names@, 0)),
        Type::Generic(_) => Outcome::clean(),
        Type::Primitive(_) => Outcome::clean(),
        Type::FunctionPointer(pointer) => fn_decl_outcome(env, path, pointer.decl).followed_by(
            param_defs_outcome(env, path, pointer.generic_params@, 0),
        ),
        Type::Tuple(types) => types_outcome(
            env,
            path,
            ErrorLocationView::EnumTupleEntry,
            types@,
            0,
        ),
        Type::Slice(inner) => type_outcome(env, path, what, *inner),
        Type::Array { type_ } => type_outcome(env, path, what, *type_),
        Type::ImplTrait(bounds) => bounds_outcome(env, path, what, bounds@, 0),
        Type::Infer => Outcome::failed(VisitError::InferredType),
        Type::RawPointer { type_ } => type_outcome(env, path, what, *type_),
        Type::BorrowedRef { type_ } => type_outcome(env, path, what, *type_),
        Type::QualifiedPath { name, self_type, trait_ } => type_outcome(
            env,
            path,
            ErrorLocationView::QualifiedSelfType,
            *self_type,
        ).followed_by(
            type_outcome(env, path, ErrorLocationView::QualifiedSelfTypeAsTrait, *trait_),
        ),
    }
}

/// The walk of the types of a list from position `from` on, each used as
/// `what`.
pub open spec fn types_outcome(
    env: Env,
    path: PathView,
    what: ErrorLocationView,
    types: Seq<Type>,
    from: nat,
) -> Outcome
    decreases types, types.len() - from,
{
    if from >= types.len() {
        Outcome::clean()
    } else {
        type_outcome(env, path, what, types[from as int]).followed_by(
            types_outcome(env, path, what, types, from + 1),
        )
    }
}

/// The walk of one bound: of the trait that it names, used as `what`, and of
/// the parameters that it binds.
pub open spec fn bound_outcome(
    env: Env,
    path: PathView,
    what: ErrorLocationView,
    bound: GenericBound,
) -> Outcome
    decreases bound, 0nat,
{
    match bound {
        GenericBound::TraitBound { trait_, generic_params } => type_outcome(
            env,
            path,
            what,
            trait_,
        ).followed_by(param_defs_outcome(env, path, generic_params@, 0)),
        GenericBound::Outlives => Outcome::clean(),
    }
}

/// The walk of the bounds of a list from position `from` on.
pub open spec fn bounds_outcome(
    env: Env,
    path: PathView,
    what: ErrorLocationView,
    bounds: Seq<GenericBound>,
    from: nat,
) -> Outcome
    decreases bounds, bounds.len() - from,
{
    if from >= bounds.len() {
        Outcome::clean()
    } else {
        bound_outcome(env, path, what, bounds[from as int]).followed_by(
            bounds_outcome(env, path, what, bounds, from + 1),
        )
    }
}

/// The walk of the definition of one generic parameter.
pub open spec fn param_def_outcome(env: Env, path: PathView, param: GenericParamDef) -> Outcome
    decreases param, 0nat,
{
    match param.kind {
        GenericParamDefKind::Type { bounds, default } => bounds_outcome(
            env,
            path,
            ErrorLocationView::TraitBound,
            bounds@,
            0,
        ).followed_by(
            match default {
                Some(typ) => type_outcome(env, path, ErrorLocationView::GenericDefaultBinding, typ),
                None => Outcome::clean(),
            },
        ),
        GenericParamDefKind::Const { type_ } => type_outcome(
            env,
            path,
            ErrorLocationView::ConstGeneric,
            type_,
        ),
        GenericParamDefKind::Lifetime => Outcome::clean(),
    }
}

/// The walk of the definitions of generic parameters from position `from`
/// on.
pub open spec fn param_defs_outcome(
    env: Env,
    path: PathView,
    params: Seq<GenericParamDef>,
    from: nat,
) -> Outcome
    decreases params, params.len() - from,
{
    if from >= params.len() {
        Outcome::clean()
    } else {
        param_def_outcome(env, path, params[from as int]).followed_by(
            param_defs_outcome(env, path, params, from + 1),
        )
    }
}

/// The walk of the generic arguments of a path.
pub open spec fn generic_args_outcome(env: Env, path: PathView, args: GenericArgs) -> Outcome
    decreases args, 0nat,
{
    match args {
        GenericArgs::AngleBracketed { args, bindings } => arg_list_outcome(
            env,
            path,
            args@,
            0,
        ).followed_by(bindings_outcome(env, path, bindings@, 0)),
        GenericArgs::Parenthesized { inputs, output } => types_outcome(
            env,
            path,
            ErrorLocationView::ClosureInput,
            inputs@,
            0,
        ).followed_by(
            match output {
                Some(typ) => type_outcome(env, path, ErrorLocationView::ClosureOutput, typ),
                None => Outcome::clean(),
            },
        ),
    }
}

/// The walk of one generic argument: only a type is walked.
pub open spec fn arg_outcome(env: Env, path: PathView, arg: GenericArg) -> Outcome
    decreases arg, 0nat,
{
    match arg {
        GenericArg::Type(typ) => type_outcome(env, path, ErrorLocationView::GenericArg, typ),
        GenericArg::Lifetime => Outcome::clean(),
        GenericArg::Const => Outcome::clean(),
        GenericArg::Infer => Outcome::clean(),
    }
}

/// The walk of the generic arguments of a list from position `from` on.
pub open spec fn arg_list_outcome(
    env: Env,
    path: PathView,
    args: Seq<GenericArg>,
    from: nat,
) -> Outcome
    decreases args, args.len() - from,
{
    if from >= args.len() {
        Outcome::clean()
    } else {
        arg_outcome(env, path, args[from as int]).followed_by(
            arg_list_outcome(env, path, args, from + 1),
        )
    }
}

/// The walk of one binding of an associated type.
pub open spec fn binding_outcome(env: Env, path: PathView, binding: TypeBinding) -> Outcome
    decreases binding, 0nat,
{
    match binding.binding {
        TypeBindingKind::Equality(term) => match term {
            Term::Type(typ) => type_outcome(
                env,
                path,
                ErrorLocationView::GenericDefaultBinding,
                typ,
            ),
            Term::Constant => Outcome::clean(),
        },
        TypeBindingKind::Constraint(bounds) => bounds_outcome(
            env,
            path,
            ErrorLocationView::TraitBound,
            bounds@,
            0,
        ),
    }
}

/// The walk of the bindings of a list from position `from` on.
pub open spec fn bindings_outcome(
    env: Env,
    path: PathView,
    bindings: Seq<TypeBinding>,
    from: nat,
) -> Outcome
    decreases bindings, bindings.len() - from,
{
    if from >= bindings.len() {
        Outcome::clean()
    } else {
        binding_outcome(env, path, bindings[from as int]).followed_by(
            bindings_outcome(env, path, bindings, from + 1),
        )
    }
}

/// The name under which a function takes the value it is called on.
pub open spec fn receiver_name() -> Seq<char> {
    seq!['s', 'e', 'l', 'f']
}

/// The walk of the inputs of a signature from position `from` on. A first
/// input that is the receiver is passed over.
pub open spec fn inputs_outcome(
    env: Env,
    path: PathView,
    inputs: Seq<(String, Type)>,
    from: nat,
) -> Outcome
    decreases inputs, inputs.len() - from,
{
    if from >= inputs.len() {
        Outcome::clean()
    } else {
        let input = inputs[from as int];
        (if from == 0 && input.0@ == receiver_name() {
            Outcome::clean()
        } else {
            type_outcome(env, path, ErrorLocationView::ArgumentNamed(input.0@), input.1)
        }).followed_by(inputs_outcome(env, path, inputs, from + 1))
    }
}

/// The walk of a signature: its inputs, then its output.
pub open spec fn fn_decl_outcome(env: Env, path: PathView, decl: FnDecl) -> Outcome
    decreases decl, 0nat,
{
    inputs_outcome(env, path, decl.inputs@, 0).followed_by(
        match decl.output {
            Some(typ) => type_outcome(env, path, ErrorLocationView::ReturnValue, typ),
            None => Outcome::clean(),
        },
    )
}

/// The walk of one clause of a `where` list.
pub open spec fn where_predicate_outcome(
    env: Env,
    path: PathView,
    predicate: WherePredicate,
) -> Outcome {
    match predicate {
        WherePredicate::BoundPredicate { type_, bounds, generic_params } => type_outcome(
            env,
            path,
            ErrorLocationView::WhereBound,
            type_,
        ).followed_by(
            bounds_outcome(env, path, ErrorLocationView::TraitBound, bounds@, 0),
        ).followed_by(param_defs_outcome(env, path, generic_params@, 0)),
        WherePredicate::RegionPredicate { bounds } => bounds_outcome(
            env,
            path,
            ErrorLocationView::TraitBound,
            bounds@,
            0,
        ),
        WherePredicate::EqPredicate { lhs } => type_outcome(
            env,
            path,
            ErrorLocationView::WhereBound,
            lhs,
        ),
    }
}

/// The walk of the clauses of a `where` list from position `from` on.
pub open spec fn where_predicates_outcome(
    env: Env,
    path: PathView,
    predicates: Seq<WherePredicate>,
    from: nat,
) -> Outcome
    decreases predicates.len() - from,
{
    if from >= predicates.len() {
        Outcome::clean()
    } else {
        where_predicate_outcome(env, path, predicates[from as int]).followed_by(
            where_predicates_outcome(env, path, predicates, from + 1),
        )
    }
}

/// The walk of the generic parameters of a declaration and of its `where`
/// list.
pub open spec fn generics_outcome(env: Env, path: PathView, generics: Generics) -> Outcome {
    param_defs_outcome(env, path, generics.params@, 0).followed_by(
        where_predicates_outcome(env, path, generics.where_predicates@, 0),
    )
}

/// The path extended by a component for a named item.
pub open spec fn extended(path: PathView, typ: ComponentType, item: Item) -> PathView
    recommends
        item.name is Some,
{
    path.push(ComponentView { typ, name: item.name->0@, span: span_view(item.span) })
}

/// The kind of path component that stands for an item of the given kind, for
/// the kinds of item that the path names.
pub open spec fn component_of(inner: ItemEnum) -> Option<ComponentType> {
    match inner {
        ItemEnum::AssocConst { .. } => Some(ComponentType::AssocConst),
        ItemEnum::AssocType { .. } => Some(ComponentType::AssocType),
        ItemEnum::Constant(_) => Some(ComponentType::Constant),
        ItemEnum::Enum(_) => Some(ComponentType::Enum),
        ItemEnum::Function(_) => Some(ComponentType::Function),
        ItemEnum::Method(_) => Some(ComponentType::Method),
        ItemEnum::Module(module) => if module.is_crate {
            None
        } else {
            Some(ComponentType::Module)
        },
        ItemEnum::Static(_) => Some(ComponentType::Static),
        ItemEnum::Struct(_) => Some(ComponentType::Struct),
        ItemEnum::StructField(_) => Some(ComponentType::StructField),
        ItemEnum::Trait(_) => Some(ComponentType::Trait),
        ItemEnum::Typedef(_) => Some(ComponentType::TypeDef),
        ItemEnum::Union(_) => Some(ComponentType::Union),
        ItemEnum::Variant(_) => Some(ComponentType::EnumVariant),
        ItemEnum::ExternCrate => None,
        ItemEnum::ForeignType => None,
        ItemEnum::Impl(_) => None,
        ItemEnum::Import(_) => None,
        ItemEnum::Macro => None,
        ItemEnum::OpaqueTy => None,
        ItemEnum::PrimitiveType => None,
        ItemEnum::ProcMacro => None,
        ItemEnum::TraitAlias => None,
    }
}

/// The visit of an item that was reached at `path`, with `depth` levels
/// of nesting left to go.
///
/// An item that is not public where it stands contributes nothing, unless it
/// counts as public. A visible item needs one level of depth. An item of a
/// kind that the path names is walked at the path extended by its name, and
/// is a fault if it has none.
pub open spec fn item_outcome(
    env: Env,
    path: PathView,
    item: Item,
    check: VisibilityCheck,
    depth: nat,
) -> Outcome
    decreases depth, 1nat, 0nat,
{
    if check == VisibilityCheck::Default && !is_public_at(path, item) {
        Outcome::clean()
    } else if depth == 0 {
        Outcome::failed(VisitError::DepthLimitExceeded)
    } else {
        match component_of(item.inner) {
            Some(typ) => if item.name is None {
                Outcome::failed(VisitError::UnnamedItem(item.id))
            } else {
                declaration_outcome(env, extended(path, typ, item), item, (depth - 1) as nat)
            },
            None => declaration_outcome(env, path, item, (depth - 1) as nat),
        }
    }
}

/// The path at which the target of a re-export is checked: the path of the
/// re-export, extended by the name under which the target is re-exported.
pub open spec fn reexport_path(path: PathView, item: Item, import: Import) -> PathView {
    path.push(
        ComponentView {
            typ: ComponentType::ReExport,
            name: import.name@,
            span: span_view(item.span),
        },
    )
}

/// The visit of a re-export at `path`. A target of the library under
/// inspection is visited as if it were public. Then the target itself is
/// checked as a reference, at the path extended by the name it is
/// re-exported under.
pub open spec fn import_outcome(
    env: Env,
    path: PathView,
    item: Item,
    import: Import,
    depth: nat,
) -> Outcome
    decreases depth, 3nat, 0nat,
{
    match import.id {
        Some(target) => (if in_root_crate(env, target) {
            match find(env.index, target@) {
                Some(found) => item_outcome(env, path, found, VisibilityCheck::AssumePublic, depth),
                None => Outcome::failed(VisitError::ItemNotFound(target)),
            }
        } else {
            Outcome::clean()
        }).followed_by(
            check_outcome(
                env,
                reexport_path(path, item, import),
                ErrorLocationView::ReExport,
                target,
            ),
        ),
        None => Outcome::clean(),
    }
}

/// The walk of what an item declares, by the kind of the item, at the path
/// that already names the item.
pub open spec fn declaration_outcome(env: Env, path: PathView, item: Item, depth: nat) -> Outcome
    decreases depth, 6nat, 0nat,
{
    match item.inner {
        ItemEnum::AssocConst { type_ } => type_outcome(
            env,
            path,
            ErrorLocationView::StructField,
            type_,
        ),
        ItemEnum::AssocType { generics, bounds, default } => (match default {
            Some(typ) => type_outcome(env, path, ErrorLocationView::AssocType, typ),
            None => Outcome::clean(),
        }).followed_by(
            bounds_outcome(env, path, ErrorLocationView::TraitBound, bounds@, 0),
        ).followed_by(generics_outcome(env, path, generics)),
        ItemEnum::Constant(constant) => type_outcome(
            env,
            path,
            ErrorLocationView::Constant,
            constant.type_,
        ),
        ItemEnum::Enum(enm) => enum_outcome(env, path, enm, depth),
        ItemEnum::Function(function) => fn_decl_outcome(env, path, function.decl).followed_by(
            generics_outcome(env, path, function.generics),
        ),
        ItemEnum::Import(import) => import_outcome(env, path, item, import, depth),
        ItemEnum::Method(method) => fn_decl_outcome(env, path, method.decl).followed_by(
            generics_outcome(env, path, method.generics),
        ),
        ItemEnum::Module(module) => members_outcome(env, path, module.items@, true, depth, 0),
        ItemEnum::Static(sttc) => type_outcome(env, path, ErrorLocationView::Static, sttc.type_),
        ItemEnum::Struct(strct) => struct_outcome(env, path, strct, depth),
        ItemEnum::StructField(typ) => type_outcome(env, path, ErrorLocationView::StructField, typ),
        ItemEnum::Trait(trt) => trait_outcome(env, path, trt, depth),
        ItemEnum::Typedef(typedef) => type_outcome(
            env,
            path,
            ErrorLocationView::TypeDef,
            typedef.type_,
        ).followed_by(generics_outcome(env, path, typedef.generics)),
        ItemEnum::Union(unn) => union_outcome(env, path, unn, depth),
        ItemEnum::Variant(variant) => variant_outcome(env, path, variant, depth),
        // Features of the language that are not supported.
        ItemEnum::ForeignType => Outcome::failed(
            VisitError::UnsupportedFeature(UnstableFeature::ExternTypes),
        ),
        ItemEnum::OpaqueTy => Outcome::failed(
            VisitError::UnsupportedFeature(UnstableFeature::TypeAliasImplTrait),
        ),
        ItemEnum::TraitAlias => Outcome::failed(
            VisitError::UnsupportedFeature(UnstableFeature::TraitAlias),
        ),
        // Items without a body to inspect. An implementation block is walked
        // where the type that it belongs to lists it.
        ItemEnum::ExternCrate => Outcome::clean(),
        ItemEnum::Impl(_) => Outcome::clean(),
        ItemEnum::Macro => Outcome::clean(),
        ItemEnum::PrimitiveType => Outcome::clean(),
        ItemEnum::ProcMacro => Outcome::clean(),
    }
}

/// The visit of the items with the identities of a list from position
/// `from` on. Each identity has to be in the index. With `own_only`, items
/// that another package defines are passed over.
pub open spec fn members_outcome(
    env: Env,
    path: PathView,
    ids: Seq<Id>,
    own_only: bool,
    depth: nat,
    from: nat,
) -> Outcome
    decreases depth, 2nat, ids.len() - from,
{
    if from >= ids.len() {
        Outcome::clean()
    } else {
        (match find(env.index, ids[from as int]@) {
            Some(item) => if own_only && item.crate_id != env.root_crate_id {
                Outcome::clean()
            } else {
                item_outcome(env, path, item, VisibilityCheck::Default, depth)
            },
            None => Outcome::failed(VisitError::ItemNotFound(ids[from as int])),
        }).followed_by(members_outcome(env, path, ids, own_only, depth, from + 1))
    }
}

/// The walk of one implementation block. A blanket implementation
/// contributes nothing.
pub open spec fn impl_outcome(env: Env, path: PathView, item: Item, depth: nat) -> Outcome
    decreases depth, 3nat, 0nat,
{
    match item.inner {
        ItemEnum::Impl(imp) => if imp.blanket {
            Outcome::clean()
        } else {
            generics_outcome(env, path, imp.generics).followed_by(
                members_outcome(env, path, imp.items@, false, depth, 0),
            ).followed_by(
                match imp.trait_ {
                    Some(typ) => type_outcome(env, path, ErrorLocationView::ImplementedTrait, typ),
                    None => Outcome::clean(),
                },
            )
        },
        _ => Outcome::failed(VisitError::NotAnImpl(item.id)),
    }
}

/// The walk of the implementation blocks with the identities of a list from
/// position `from` on.
pub open spec fn impls_outcome(
    env: Env,
    path: PathView,
    ids: Seq<Id>,
    depth: nat,
    from: nat,
) -> Outcome
    decreases depth, 4nat, ids.len() - from,
{
    if from >= ids.len() {
        Outcome::clean()
    } else {
        (match find(env.index, ids[from as int]@) {
            Some(item) => impl_outcome(env, path, item, depth),
            None => Outcome::failed(VisitError::ItemNotFound(ids[from as int])),
        }).followed_by(impls_outcome(env, path, ids, depth, from + 1))
    }
}

/// The walk of a structure: generics, fields, implementation blocks.
pub open spec fn struct_outcome(env: Env, path: PathView, strct: Struct, depth: nat) -> Outcome
    decreases depth, 5nat, 0nat,
{
    generics_outcome(env, path, strct.generics).followed_by(
        members_outcome(env, path, strct.fields@, false, depth, 0),
    ).followed_by(impls_outcome(env, path, strct.impls@, depth, 0))
}

/// The walk of a union: generics, fields, implementation blocks.
pub open spec fn union_outcome(env: Env, path: PathView, unn: Union, depth: nat) -> Outcome
    decreases depth, 5nat, 0nat,
{
    generics_outcome(env, path, unn.generics).followed_by(
        members_outcome(env, path, unn.fields@, false, depth, 0),
    ).followed_by(impls_outcome(env, path, unn.impls@, depth, 0))
}

/// The walk of an enumeration: generics, implementation blocks, variants.
pub open spec fn enum_outcome(env: Env, path: PathView, enm: Enum, depth: nat) -> Outcome
    decreases depth, 5nat, 0nat,
{
    generics_outcome(env, path, enm.generics).followed_by(
        impls_outcome(env, path, enm.impls@, depth, 0),
    ).followed_by(members_outcome(env, path, enm.variants@, false, depth, 0))
}

/// The walk of a trait: generics, the bounds on implementors, members.
pub open spec fn trait_outcome(env: Env, path: PathView, trt: Trait, depth: nat) -> Outcome
    decreases depth, 5nat, 0nat,
{
    generics_outcome(env, path, trt.generics).followed_by(
        bounds_outcome(env, path, ErrorLocationView::TraitBound, trt.bounds@, 0),
    ).followed_by(members_outcome(env, path, trt.items@, false, depth, 0))
}

/// The walk of a variant of an enumeration: the types of a tuple variant,
/// the fields of a structure variant, nothing of a plain one.
pub open spec fn variant_outcome(env: Env, path: PathView, variant: Variant, depth: nat) -> Outcome
    decreases depth, 5nat, 0nat,
{
    match variant {
        Variant::Plain => Outcome::clean(),
        Variant::Tuple(types) => types_outcome(
            env,
            path,
            ErrorLocationView::EnumTupleEntry,
            types@,
            0,
        ),
        Variant::Struct(ids) => members_outcome(env, path, ids@, false, depth, 0),
    }
}

/// Whether an item is a module that is marked as the root container of its
/// library.
pub open spec fn is_root_module(item: Item) -> bool {
    item.inner matches ItemEnum::Module(module) && module.is_crate
}

/// The number of root modules among the items from position `from` on.
pub open spec fn root_module_count(index: Seq<Item>, from: nat) -> nat
    decreases index.len() - from,
{
    if from >= index.len() {
        0
    } else if is_root_module(index[from as int]) {
        1 + root_module_count(index, from + 1)
    } else {
        root_module_count(index, from + 1)
    }
}

/// The identities of the members of the first root module among the items
/// from position `from` on.
pub open spec fn root_module_items(index: Seq<Item>, from: nat) -> Option<Seq<Id>>
    decreases index.len() - from,
{
    if from >= index.len() {
        None
    } else {
        match index[from as int].inner {
            ItemEnum::Module(module) => if module.is_crate {
                Some(module.items@)
            } else {
                root_module_items(index, from + 1)
            },
            _ => root_module_items(index, from + 1),
        }
    }
}

/// The path that holds only the library under inspection.
pub open spec fn root_path(env: Env) -> PathView {
    seq![ComponentView { typ: ComponentType::Crate, name: env.root_crate_name, span: None }]
}

/// The traversal of the whole graph, to at most `depth` levels of nested
/// items. Exactly one module has to be marked as the root container; its
/// members are visited at the path of the library.
pub open spec fn graph_outcome(env: Env, depth: nat) -> Outcome {
    let count = root_module_count(env.index, 0);
    if count == 0 {
        Outcome::failed(VisitError::RootModuleMissing)
    } else if count > 1 {
        Outcome::failed(VisitError::RootModuleAmbiguous)
    } else {
        members_outcome(env, root_path(env), root_module_items(env.index, 0)->0, false, depth, 0)
    }
}

/// Whether `result` is what the traversal of the graph hands back: the
/// fault at which it ended, or else the violations it found, each once, in
/// the order in which they are reported.
pub open spec fn is_traversal_result(
    env: Env,
    depth: nat,
    result: Result<Seq<ErrorView>, VisitError>,
) -> bool {
    match result {
        Ok(report) => {
            &&& graph_outcome(env, depth).fault is None
            &&& is_report_of(report, graph_outcome(env, depth).violations)
        },
        Err(fault) => graph_outcome(env, depth).fault == Some(fault),
    }
}

} // verus!
