//! Every violation that a traversal yields is genuine: it names a type that
//! the graph knows by that name and that the policy does not allow.

use vstd::prelude::*;
use crate::error::{ErrorLocationView, ErrorView, VisitError};
use crate::graph::{
    Enum, FnDecl, GenericArg, GenericArgs, GenericBound, GenericParamDef, GenericParamDefKind,
    Generics, Id, Import, Item, ItemEnum, Struct, Term, Trait, Type, TypeBinding,
    TypeBindingKind, Union, Variant, WherePredicate,
};
use crate::model::{
    Env, Outcome, VisibilityCheck, arg_list_outcome, arg_outcome, binding_outcome,
    bindings_outcome, bound_outcome, bounds_outcome, canonical_name, check_outcome,
    component_of, declaration_outcome, enum_outcome, extended, fn_decl_outcome,
    generic_args_outcome, generics_outcome, graph_outcome, impl_outcome, impls_outcome,
    import_outcome, inputs_outcome, is_traversal_result, item_outcome, members_outcome,
    param_def_outcome, param_defs_outcome, reexport_path, root_module_items, root_path,
    struct_outcome, trait_outcome, type_outcome, types_outcome, union_outcome, variant_outcome,
    where_predicate_outcome, where_predicates_outcome,
};
use crate::path::PathView;
use crate::table::find;

verus! {

/// Whether a violation is genuine: the policy does not allow the name of the
/// type, and the graph gives that name to an item.
pub open spec fn is_genuine(env: Env, violation: ErrorView) -> bool {
    &&& !env.config.allows(env.root_crate_name, violation.external_type)
    &&& exists|id: Id| #[trigger] canonical_name(env, id) == Some(violation.external_type)
}

/// Whether all violations of an outcome are genuine.
pub open spec fn all_genuine(env: Env, outcome: Outcome) -> bool {
    forall|violation: ErrorView| #[trigger]
        outcome.violations.contains(violation) ==> is_genuine(env, violation)
}

proof fn lemma_check(env: Env, path: PathView, what: ErrorLocationView, id: Id)
    ensures
        all_genuine(env, check_outcome(env, path, what, id)),
{
}

proof fn lemma_type(env: Env, path: PathView, what: ErrorLocationView, typ: Type)
    ensures
        all_genuine(env, type_outcome(env, path, what, typ)),
    decreases typ, 0nat,
{
    match typ {
        Type::ResolvedPath { name, id, args, param_names } => {
            lemma_check(env, path, what, id);
            if let Some(args) = args {
                lemma_generic_args(env, path, *args);
            }
            lemma_bounds(env, path, ErrorLocationView::TraitBound, param_names@, 0);
        },
        Type::Generic(_) => {},
        Type::Primitive(_) => {},
        Type::FunctionPointer(pointer) => {
            lemma_fn_decl(env, path, pointer.decl);
            lemma_param_defs(env, path, pointer.generic_params@, 0);
        },
        Type::Tuple(types) => {
            lemma_types(env, path, ErrorLocationView::EnumTupleEntry, types@, 0);
        },
        Type::Slice(inner) => {
            lemma_type(env, path, what, *inner);
        },
        Type::Array { type_ } => {
            lemma_type(env, path, what, *type_);
        },
        Type::ImplTrait(bounds) => {
            lemma_bounds(env, path, what, bounds@, 0);
        },
        Type::Infer => {},
        Type::RawPointer { type_ } => {
            lemma_type(env, path, what, *type_);
        },
        Type::BorrowedRef { type_ } => {
            lemma_type(env, path, what, *type_);
        },
        Type::QualifiedPath { name, self_type, trait_ } => {
            lemma_type(env, path, ErrorLocationView::QualifiedSelfType, *self_type);
            lemma_type(env, path, ErrorLocationView::QualifiedSelfTypeAsTrait, *trait_);
        },
    }
}

proof fn lemma_types(env: Env, path: PathView, what: ErrorLocationView, types: Seq<Type>, from: nat)
    ensures
        all_genuine(env, types_outcome(env, path, what, types, from)),
    decreases types, types.len() - from,
{
    if from < types.len() {
        lemma_type(env, path, what, types[from as int]);
        lemma_types(env, path, what, types, from + 1);
    }
}

proof fn lemma_bound(env: Env, path: PathView, what: ErrorLocationView, bound: GenericBound)
    ensures
        all_genuine(env, bound_outcome(env, path, what, bound)),
    decreases bound, 0nat,
{
    match bound {
        GenericBound::TraitBound { trait_, generic_params } => {
            lemma_type(env, path, what, trait_);
            lemma_param_defs(env, path, generic_params@, 0);
        },
        GenericBound::Outlives => {},
    }
}

proof fn lemma_bounds(
    env: Env,
    path: PathView,
    what: ErrorLocationView,
    bounds: Seq<GenericBound>,
    from: nat,
)
    ensures
        all_genuine(env, bounds_outcome(env, path, what, bounds, from)),
    decreases bounds, bounds.len() - from,
{
    if from < bounds.len() {
        lemma_bound(env, path, what, bounds[from as int]);
        lemma_bounds(env, path, what, bounds, from + 1);
    }
}

proof fn lemma_param_def(env: Env, path: PathView, param: GenericParamDef)
    ensures
        all_genuine(env, param_def_outcome(env, path, param)),
    decreases param, 0nat,
{
    match param.kind {
        GenericParamDefKind::Type { bounds, default } => {
            lemma_bounds(env, path, ErrorLocationView::TraitBound, bounds@, 0);
            if let Some(typ) = default {
                lemma_type(env, path, ErrorLocationView::GenericDefaultBinding, typ);
            }
        },
        GenericParamDefKind::Const { type_ } => {
            lemma_type(env, path, ErrorLocationView::ConstGeneric, type_);
        },
        GenericParamDefKind::Lifetime => {},
    }
}

proof fn lemma_param_defs(env: Env, path: PathView, params: Seq<GenericParamDef>, from: nat)
    ensures
        all_genuine(env, param_defs_outcome(env, path, params, from)),
    decreases params, params.len() - from,
{
    if from < params.len() {
        lemma_param_def(env, path, params[from as int]);
        lemma_param_defs(env, path, params, from + 1);
    }
}

proof fn lemma_generic_args(env: Env, path: PathView, args: GenericArgs)
    ensures
        all_genuine(env, generic_args_outcome(env, path, args)),
    decreases args, 0nat,
{
    match args {
        GenericArgs::AngleBracketed { args, bindings } => {
            lemma_arg_list(env, path, args@, 0);
            lemma_bindings(env, path, bindings@, 0);
        },
        GenericArgs::Parenthesized { inputs, output } => {
            lemma_types(env, path, ErrorLocationView::ClosureInput, inputs@, 0);
            if let Some(typ) = output {
                lemma_type(env, path, ErrorLocationView::ClosureOutput, typ);
            }
        },
    }
}

proof fn lemma_arg(env: Env, path: PathView, arg: GenericArg)
    ensures
        all_genuine(env, arg_outcome(env, path, arg)),
    decreases arg, 0nat,
{
    if let GenericArg::Type(typ) = arg {
        lemma_type(env, path, ErrorLocationView::GenericArg, typ);
    }
}

proof fn lemma_arg_list(env: Env, path: PathView, args: Seq<GenericArg>, from: nat)
    ensures
        all_genuine(env, arg_list_outcome(env, path, args, from)),
    decreases args, args.len() - from,
{
    if from < args.len() {
        lemma_arg(env, path, args[from as int]);
        lemma_arg_list(env, path, args, from + 1);
    }
}

proof fn lemma_binding(env: Env, path: PathView, binding: TypeBinding)
    ensures
        all_genuine(env, binding_outcome(env, path, binding)),
    decreases binding, 0nat,
{
    match binding.binding {
        TypeBindingKind::Equality(term) => {
            if let Term::Type(typ) = term {
                lemma_type(env, path, ErrorLocationView::GenericDefaultBinding, typ);
            }
        },
        TypeBindingKind::Constraint(bounds) => {
            lemma_bounds(env, path, ErrorLocationView::TraitBound, bounds@, 0);
        },
    }
}

proof fn lemma_bindings(env: Env, path: PathView, bindings: Seq<TypeBinding>, from: nat)
    ensures
        all_genuine(env, bindings_outcome(env, path, bindings, from)),
    decreases bindings, bindings.len() - from,
{
    if from < bindings.len() {
        lemma_binding(env, path, bindings[from as int]);
        lemma_bindings(env, path, bindings, from + 1);
    }
}

proof fn lemma_inputs(env: Env, path: PathView, inputs: Seq<(String, Type)>, from: nat)
    ensures
        all_genuine(env, inputs_outcome(env, path, inputs, from)),
    decreases inputs, inputs.len() - from,
{
    if from < inputs.len() {
        let input = inputs[from as int];
        lemma_type(env, path, ErrorLocationView::ArgumentNamed(input.0@), input.1);
        lemma_inputs(env, path, inputs, from + 1);
    }
}

proof fn lemma_fn_decl(env: Env, path: PathView, decl: FnDecl)
    ensures
        all_genuine(env, fn_decl_outcome(env, path, decl)),
    decreases decl, 0nat,
{
    lemma_inputs(env, path, decl.inputs@, 0);
    if let Some(typ) = decl.output {
        lemma_type(env, path, ErrorLocationView::ReturnValue, typ);
    }
}

proof fn lemma_where_predicates(
    env: Env,
    path: PathView,
    predicates: Seq<WherePredicate>,
    from: nat,
)
    ensures
        all_genuine(env, where_predicates_outcome(env, path, predicates, from)),
    decreases predicates.len() - from,
{
    if from < predicates.len() {
        match predicates[from as int] {
            WherePredicate::BoundPredicate { type_, bounds, generic_params } => {
                lemma_type(env, path, ErrorLocationView::WhereBound, type_);
                lemma_bounds(env, path, ErrorLocationView::TraitBound, bounds@, 0);
                lemma_param_defs(env, path, generic_params@, 0);
            },
            WherePredicate::RegionPredicate { bounds } => {
                lemma_bounds(env, path, ErrorLocationView::TraitBound, bounds@, 0);
            },
            WherePredicate::EqPredicate { lhs } => {
                lemma_type(env, path, ErrorLocationView::WhereBound, lhs);
            },
        }
        lemma_where_predicates(env, path, predicates, from + 1);
    }
}

proof fn lemma_generics(env: Env, path: PathView, generics: Generics)
    ensures
        all_genuine(env, generics_outcome(env, path, generics)),
{
    lemma_param_defs(env, path, generics.params@, 0);
    lemma_where_predicates(env, path, generics.where_predicates@, 0);
}

proof fn lemma_item(env: Env, path: PathView, item: Item, check: VisibilityCheck, depth: nat)
    ensures
        all_genuine(env, item_outcome(env, path, item, check, depth)),
    decreases depth, 1nat, 0nat,
{
    if depth > 0 {
        match component_of(item.inner) {
            Some(typ) => {
                lemma_declaration(env, extended(path, typ, item), item, (depth - 1) as nat);
            },
            None => {
                lemma_declaration(env, path, item, (depth - 1) as nat);
            },
        }
    }
}

proof fn lemma_import(env: Env, path: PathView, item: Item, import: Import, depth: nat)
    ensures
        all_genuine(env, import_outcome(env, path, item, import, depth)),
    decreases depth, 3nat, 0nat,
{
    if let Some(target) = import.id {
        if let Some(found) = find(env.index, target@) {
            lemma_item(env, path, found, VisibilityCheck::AssumePublic, depth);
        }
        lemma_check(env, reexport_path(path, item, import), ErrorLocationView::ReExport, target);
    }
}

proof fn lemma_declaration(env: Env, path: PathView, item: Item, depth: nat)
    ensures
        all_genuine(env, declaration_outcome(env, path, item, depth)),
    decreases depth, 6nat, 0nat,
{
    match item.inner {
        ItemEnum::AssocConst { type_ } => {
            lemma_type(env, path, ErrorLocationView::StructField, type_);
        },
        ItemEnum::AssocType { generics, bounds, default } => {
            if let Some(typ) = default {
                lemma_type(env, path, ErrorLocationView::AssocType, typ);
            }
            lemma_bounds(env, path, ErrorLocationView::TraitBound, bounds@, 0);
            lemma_generics(env, path, generics);
        },
        ItemEnum::Constant(constant) => {
            lemma_type(env, path, ErrorLocationView::Constant, constant.type_);
        },
        ItemEnum::Enum(enm) => {
            lemma_enum(env, path, enm, depth);
        },
        ItemEnum::Function(function) => {
            lemma_fn_decl(env, path, function.decl);
            lemma_generics(env, path, function.generics);
        },
        ItemEnum::Import(import) => {
            lemma_import(env, path, item, import, depth);
        },
        ItemEnum::Method(method) => {
            lemma_fn_decl(env, path, method.decl);
            lemma_generics(env, path, method.generics);
        },
        ItemEnum::Module(module) => {
            lemma_members(env, path, module.items@, true, depth, 0);
        },
        ItemEnum::Static(sttc) => {
            lemma_type(env, path, ErrorLocationView::Static, sttc.type_);
        },
        ItemEnum::Struct(strct) => {
            lemma_struct(env, path, strct, depth);
        },
        ItemEnum::StructField(typ) => {
            lemma_type(env, path, ErrorLocationView::StructField, typ);
        },
        ItemEnum::Trait(trt) => {
            lemma_trait(env, path, trt, depth);
        },
        ItemEnum::Typedef(typedef) => {
            lemma_type(env, path, ErrorLocationView::TypeDef, typedef.type_);
            lemma_generics(env, path, typedef.generics);
        },
        ItemEnum::Union(unn) => {
            lemma_union(env, path, unn, depth);
        },
        ItemEnum::Variant(variant) => {
            lemma_variant(env, path, variant, depth);
        },
        _ => {},
    }
}

proof fn lemma_members(
    env: Env,
    path: PathView,
    ids: Seq<Id>,
    own_only: bool,
    depth: nat,
    from: nat,
)
    ensures
        all_genuine(env, members_outcome(env, path, ids, own_only, depth, from)),
    decreases depth, 2nat, ids.len() - from,
{
    if from < ids.len() {
        if let Some(item) = find(env.index, ids[from as int]@) {
            lemma_item(env, path, item, VisibilityCheck::Default, depth);
        }
        lemma_members(env, path, ids, own_only, depth, from + 1);
    }
}

proof fn lemma_impl(env: Env, path: PathView, item: Item, depth: nat)
    ensures
        all_genuine(env, impl_outcome(env, path, item, depth)),
    decreases depth, 3nat, 0nat,
{
    if let ItemEnum::Impl(imp) = item.inner {
        lemma_generics(env, path, imp.generics);
        lemma_members(env, path, imp.items@, false, depth, 0);
        if let Some(typ) = imp.trait_ {
            lemma_type(env, path, ErrorLocationView::ImplementedTrait, typ);
        }
    }
}

proof fn lemma_impls(env: Env, path: PathView, ids: Seq<Id>, depth: nat, from: nat)
    ensures
        all_genuine(env, impls_outcome(env, path, ids, depth, from)),
    decreases depth, 4nat, ids.len() - from,
{
    if from < ids.len() {
        if let Some(item) = find(env.index, ids[from as int]@) {
            lemma_impl(env, path, item, depth);
        }
        lemma_impls(env, path, ids, depth, from + 1);
    }
}

proof fn lemma_struct(env: Env, path: PathView, strct: Struct, depth: nat)
    ensures
        all_genuine(env, struct_outcome(env, path, strct, depth)),
    decreases depth, 5nat, 0nat,
{
    lemma_generics(env, path, strct.generics);
    lemma_members(env, path, strct.fields@, false, depth, 0);
    lemma_impls(env, path, strct.impls@, depth, 0);
}

proof fn lemma_union(env: Env, path: PathView, unn: Union, depth: nat)
    ensures
        all_genuine(env, union_outcome(env, path, unn, depth)),
    decreases depth, 5nat, 0nat,
{
    lemma_generics(env, path, unn.generics);
    lemma_members(env, path, unn.fields@, false, depth, 0);
    lemma_impls(env, path, unn.impls@, depth, 0);
}

proof fn lemma_enum(env: Env, path: PathView, enm: Enum, depth: nat)
    ensures
        all_genuine(env, enum_outcome(env, path, enm, depth)),
    decreases depth, 5nat, 0nat,
{
    lemma_generics(env, path, enm.generics);
    lemma_impls(env, path, enm.impls@, depth, 0);
    lemma_members(env, path, enm.variants@, false, depth, 0);
}

proof fn lemma_trait(env: Env, path: PathView, trt: Trait, depth: nat)
    ensures
        all_genuine(env, trait_outcome(env, path, trt, depth)),
    decreases depth, 5nat, 0nat,
{
    lemma_generics(env, path, trt.generics);
    lemma_bounds(env, path, ErrorLocationView::TraitBound, trt.bounds@, 0);
    lemma_members(env, path, trt.items@, false, depth, 0);
}

proof fn lemma_variant(env: Env, path: PathView, variant: Variant, depth: nat)
    ensures
        all_genuine(env, variant_outcome(env, path, variant, depth)),
    decreases depth, 5nat, 0nat,
{
    match variant {
        Variant::Plain => {},
        Variant::Tuple(types) => {
            lemma_types(env, path, ErrorLocationView::EnumTupleEntry, types@, 0);
        },
        Variant::Struct(ids) => {
            lemma_members(env, path, ids@, false, depth, 0);
        },
    }
}

/// The traversal reports nothing but genuine violations: each names a type
/// that the graph knows by that name and that the policy does not allow.
pub proof fn lemma_violations_are_genuine(env: Env, depth: nat)
    ensures
        all_genuine(env, graph_outcome(env, depth)),
{
    lemma_members(env, root_path(env), root_module_items(env.index, 0)->0, false, depth, 0);
}

/// What a traversal hands back holds nothing but genuine violations.
pub proof fn lemma_report_is_genuine(env: Env, depth: nat, report: Seq<ErrorView>, i: int)
    requires
        is_traversal_result(env, depth, Ok::<Seq<ErrorView>, VisitError>(report)),
        0 <= i < report.len(),
    ensures
        is_genuine(env, report[i]),
{
    lemma_violations_are_genuine(env, depth);
    assert(report.contains(report[i]));
}

/// Under a policy that allows every name the traversal finds no violation.
pub proof fn lemma_nothing_to_report_if_all_allowed(env: Env, depth: nat)
    requires
        forall|name: Seq<char>| #[trigger] env.config.allows(env.root_crate_name, name),
    ensures
        graph_outcome(env, depth).violations == Set::<ErrorView>::empty(),
{
    lemma_violations_are_genuine(env, depth);
    assert(graph_outcome(env, depth).violations =~= Set::<ErrorView>::empty());
}

} // verus!
