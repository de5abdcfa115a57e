//! The result of a traversal does not depend on the order in which the graph
//! lists its items and names, as long as no identity stands twice: the graph
//! is a map from identities, written down as a list.

use vstd::prelude::*;
use crate::error::ErrorLocationView;
use crate::graph::{
    Enum, FnDecl, GenericArg, GenericArgs, GenericBound, GenericParamDef, GenericParamDefKind,
    Generics, Id, Import, Item, ItemEnum, ItemSummary, Struct, Term, Trait, Type, TypeBinding,
    TypeBindingKind, Union, Variant, WherePredicate,
};
use crate::model::{
    Env, VisibilityCheck, arg_list_outcome, arg_outcome, binding_outcome, bindings_outcome,
    bound_outcome, bounds_outcome, check_outcome, component_of, declaration_outcome,
    enum_outcome, extended, fn_decl_outcome, generic_args_outcome, generics_outcome,
    graph_outcome, impl_outcome, impls_outcome, import_outcome, inputs_outcome,
    is_root_module, item_outcome, members_outcome, param_def_outcome, param_defs_outcome,
    reexport_path, root_module_count, root_module_items, root_path, struct_outcome,
    trait_outcome, type_outcome, types_outcome, union_outcome, variant_outcome,
    where_predicates_outcome,
};
use crate::path::PathView;
use crate::table::{Keyed, distinct_keys, find, lemma_find_order_independent, same_records};

verus! {

/// Whether two environments answer alike: the policy and the library under
/// inspection are the same, and every identity finds the same item and the
/// same canonical name in both.
pub open spec fn same_lookups(env: Env, other: Env) -> bool {
    &&& env.config == other.config
    &&& env.root_crate_id == other.root_crate_id
    &&& env.root_crate_name == other.root_crate_name
    &&& forall|key: Seq<char>| #[trigger] find(env.index, key) == find(other.index, key)
    &&& forall|key: Seq<char>| #[trigger] find(env.paths, key) == find(other.paths, key)
}

proof fn lemma_check(env: Env, other: Env, path: PathView, what: ErrorLocationView, id: Id)
    requires
        same_lookups(env, other),
    ensures
        check_outcome(env, path, what, id) == check_outcome(other, path, what, id),
{
}

proof fn lemma_type(env: Env, other: Env, path: PathView, what: ErrorLocationView, typ: Type)
    requires
        same_lookups(env, other),
    ensures
        type_outcome(env, path, what, typ) == type_outcome(other, path, what, typ),
    decreases typ, 0nat,
{
    match typ {
        Type::ResolvedPath { name, id, args, param_names } => {
            lemma_check(env, other, path, what, id);
            if let Some(args) = args {
                lemma_generic_args(env, other, path, *args);
            }
            lemma_bounds(env, other, path, ErrorLocationView::TraitBound, param_names@, 0);
        },
        Type::Generic(_) => {},
        Type::Primitive(_) => {},
        Type::FunctionPointer(pointer) => {
            lemma_fn_decl(env, other, path, pointer.decl);
            lemma_param_defs(env, other, path, pointer.generic_params@, 0);
        },
        Type::Tuple(types) => {
            lemma_types(env, other, path, ErrorLocationView::EnumTupleEntry, types@, 0);
        },
        Type::Slice(inner) => {
            lemma_type(env, other, path, what, *inner);
        },
        Type::Array { type_ } => {
            lemma_type(env, other, path, what, *type_);
        },
        Type::ImplTrait(bounds) => {
            lemma_bounds(env, other, path, what, bounds@, 0);
        },
        Type::Infer => {},
        Type::RawPointer { type_ } => {
            lemma_type(env, other, path, what, *type_);
        },
        Type::BorrowedRef { type_ } => {
            lemma_type(env, other, path, what, *type_);
        },
        Type::QualifiedPath { name, self_type, trait_ } => {
            lemma_type(env, other, path, ErrorLocationView::QualifiedSelfType, *self_type);
            lemma_type(env, other, path, ErrorLocationView::QualifiedSelfTypeAsTrait, *trait_);
        },
    }
}

proof fn lemma_types(
    env: Env,
    other: Env,
    path: PathView,
    what: ErrorLocationView,
    types: Seq<Type>,
    from: nat,
)
    requires
        same_lookups(env, other),
    ensures
        types_outcome(env, path, what, types, from)
            == types_outcome(other, path, what, types, from),
    decreases types, types.len() - from,
{
    if from < types.len() {
        lemma_type(env, other, path, what, types[from as int]);
        lemma_types(env, other, path, what, types, from + 1);
    }
}

proof fn lemma_bound(
    env: Env,
    other: Env,
    path: PathView,
    what: ErrorLocationView,
    bound: GenericBound,
)
    requires
        same_lookups(env, other),
    ensures
        bound_outcome(env, path, what, bound) == bound_outcome(other, path, what, bound),
    decreases bound, 0nat,
{
    match bound {
        GenericBound::TraitBound { trait_, generic_params } => {
            lemma_type(env, other, path, what, trait_);
            lemma_param_defs(env, other, path, generic_params@, 0);
        },
        GenericBound::Outlives => {},
    }
}

proof fn lemma_bounds(
    env: Env,
    other: Env,
    path: PathView,
    what: ErrorLocationView,
    bounds: Seq<GenericBound>,
    from: nat,
)
    requires
        same_lookups(env, other),
    ensures
        bounds_outcome(env, path, what, bounds, from)
            == bounds_outcome(other, path, what, bounds, from),
    decreases bounds, bounds.len() - from,
{
    if from < bounds.len() {
        lemma_bound(env, other, path, what, bounds[from as int]);
        lemma_bounds(env, other, path, what, bounds, from + 1);
    }
}

proof fn lemma_param_def(env: Env, other: Env, path: PathView, param: GenericParamDef)
    requires
        same_lookups(env, other),
    ensures
        param_def_outcome(env, path, param) == param_def_outcome(other, path, param),
    decreases param, 0nat,
{
    match param.kind {
        GenericParamDefKind::Type { bounds, default } => {
            lemma_bounds(env, other, path, ErrorLocationView::TraitBound, bounds@, 0);
            if let Some(typ) = default {
                lemma_type(env, other, path, ErrorLocationView::GenericDefaultBinding, typ);
            }
        },
        GenericParamDefKind::Const { type_ } => {
            lemma_type(env, other, path, ErrorLocationView::ConstGeneric, type_);
        },
        GenericParamDefKind::Lifetime => {},
    }
}

proof fn lemma_param_defs(
    env: Env,
    other: Env,
    path: PathView,
    params: Seq<GenericParamDef>,
    from: nat,
)
    requires
        same_lookups(env, other),
    ensures
        param_defs_outcome(env, path, params, from)
            == param_defs_outcome(other, path, params, from),
    decreases params, params.len() - from,
{
    if from < params.len() {
        lemma_param_def(env, other, path, params[from as int]);
        lemma_param_defs(env, other, path, params, from + 1);
    }
}

proof fn lemma_generic_args(env: Env, other: Env, path: PathView, args: GenericArgs)
    requires
        same_lookups(env, other),
    ensures
        generic_args_outcome(env, path, args) == generic_args_outcome(other, path, args),
    decreases args, 0nat,
{
    match args {
        GenericArgs::AngleBracketed { args, bindings } => {
            lemma_arg_list(env, other, path, args@, 0);
            lemma_bindings(env, other, path, bindings@, 0);
        },
        GenericArgs::Parenthesized { inputs, output } => {
            lemma_types(env, other, path, ErrorLocationView::ClosureInput, inputs@, 0);
            if let Some(typ) = output {
                lemma_type(env, other, path, ErrorLocationView::ClosureOutput, typ);
            }
        },
    }
}

proof fn lemma_arg(env: Env, other: Env, path: PathView, arg: GenericArg)
    requires
        same_lookups(env, other),
    ensures
        arg_outcome(env, path, arg) == arg_outcome(other, path, arg),
    decreases arg, 0nat,
{
    if let GenericArg::Type(typ) = arg {
        lemma_type(env, other, path, ErrorLocationView::GenericArg, typ);
    }
}

proof fn lemma_arg_list(env: Env, other: Env, path: PathView, args: Seq<GenericArg>, from: nat)
    requires
        same_lookups(env, other),
    ensures
        arg_list_outcome(env, path, args, from) == arg_list_outcome(other, path, args, from),
    decreases args, args.len() - from,
{
    if from < args.len() {
        lemma_arg(env, other, path, args[from as int]);
        lemma_arg_list(env, other, path, args, from + 1);
    }
}

proof fn lemma_binding(env: Env, other: Env, path: PathView, binding: TypeBinding)
    requires
        same_lookups(env, other),
    ensures
        binding_outcome(env, path, binding) == binding_outcome(other, path, binding),
    decreases binding, 0nat,
{
    match binding.binding {
        TypeBindingKind::Equality(term) => {
            if let Term::Type(typ) = term {
                lemma_type(env, other, path, ErrorLocationView::GenericDefaultBinding, typ);
            }
        },
        TypeBindingKind::Constraint(bounds) => {
            lemma_bounds(env, other, path, ErrorLocationView::TraitBound, bounds@, 0);
        },
    }
}

proof fn lemma_bindings(env: Env, other: Env, path: PathView, bindings: Seq<TypeBinding>, from: nat)
    requires
        same_lookups(env, other),
    ensures
        bindings_outcome(env, path, bindings, from)
            == bindings_outcome(other, path, bindings, from),
    decreases bindings, bindings.len() - from,
{
    if from < bindings.len() {
        lemma_binding(env, other, path, bindings[from as int]);
        lemma_bindings(env, other, path, bindings, from + 1);
    }
}

proof fn lemma_inputs(env: Env, other: Env, path: PathView, inputs: Seq<(String, Type)>, from: nat)
    requires
        same_lookups(env, other),
    ensures
        inputs_outcome(env, path, inputs, from) == inputs_outcome(other, path, inputs, from),
    decreases inputs, inputs.len() - from,
{
    if from < inputs.len() {
        let input = inputs[from as int];
        lemma_type(env, other, path, ErrorLocationView::ArgumentNamed(input.0@), input.1);
        lemma_inputs(env, other, path, inputs, from + 1);
    }
}

proof fn lemma_fn_decl(env: Env, other: Env, path: PathView, decl: FnDecl)
    requires
        same_lookups(env, other),
    ensures
        fn_decl_outcome(env, path, decl) == fn_decl_outcome(other, path, decl),
    decreases decl, 0nat,
{
    lemma_inputs(env, other, path, decl.inputs@, 0);
    if let Some(typ) = decl.output {
        lemma_type(env, other, path, ErrorLocationView::ReturnValue, typ);
    }
}

proof fn lemma_where_predicates(
    env: Env,
    other: Env,
    path: PathView,
    predicates: Seq<WherePredicate>,
    from: nat,
)
    requires
        same_lookups(env, other),
    ensures
        where_predicates_outcome(env, path, predicates, from)
            == where_predicates_outcome(other, path, predicates, from),
    decreases predicates.len() - from,
{
    if from < predicates.len() {
        match predicates[from as int] {
            WherePredicate::BoundPredicate { type_, bounds, generic_params } => {
                lemma_type(env, other, path, ErrorLocationView::WhereBound, type_);
                lemma_bounds(env, other, path, ErrorLocationView::TraitBound, bounds@, 0);
                lemma_param_defs(env, other, path, generic_params@, 0);
            },
            WherePredicate::RegionPredicate { bounds } => {
                lemma_bounds(env, other, path, ErrorLocationView::TraitBound, bounds@, 0);
            },
            WherePredicate::EqPredicate { lhs } => {
                lemma_type(env, other, path, ErrorLocationView::WhereBound, lhs);
            },
        }
        lemma_where_predicates(env, other, path, predicates, from + 1);
    }
}

proof fn lemma_generics(env: Env, other: Env, path: PathView, generics: Generics)
    requires
        same_lookups(env, other),
    ensures
        generics_outcome(env, path, generics) == generics_outcome(other, path, generics),
{
    lemma_param_defs(env, other, path, generics.params@, 0);
    lemma_where_predicates(env, other, path, generics.where_predicates@, 0);
}

proof fn lemma_item(
    env: Env,
    other: Env,
    path: PathView,
    item: Item,
    check: VisibilityCheck,
    depth: nat,
)
    requires
        same_lookups(env, other),
    ensures
        item_outcome(env, path, item, check, depth)
            == item_outcome(other, path, item, check, depth),
    decreases depth, 1nat, 0nat,
{
    if depth > 0 {
        match component_of(item.inner) {
            Some(typ) => {
                lemma_declaration(env, other, extended(path, typ, item), item, (depth - 1) as nat);
            },
            None => {
                lemma_declaration(env, other, path, item, (depth - 1) as nat);
            },
        }
    }
}

proof fn lemma_import(env: Env, other: Env, path: PathView, item: Item, import: Import, depth: nat)
    requires
        same_lookups(env, other),
    ensures
        import_outcome(env, path, item, import, depth)
            == import_outcome(other, path, item, import, depth),
    decreases depth, 3nat, 0nat,
{
    if let Some(target) = import.id {
        if let Some(found) = find(env.index, target@) {
            lemma_item(env, other, path, found, VisibilityCheck::AssumePublic, depth);
        }
        lemma_check(
            env,
            other,
            reexport_path(path, item, import),
            ErrorLocationView::ReExport,
            target,
        );
    }
}

proof fn lemma_declaration(env: Env, other: Env, path: PathView, item: Item, depth: nat)
    requires
        same_lookups(env, other),
    ensures
        declaration_outcome(env, path, item, depth)
            == declaration_outcome(other, path, item, depth),
    decreases depth, 6nat, 0nat,
{
    match item.inner {
        ItemEnum::AssocConst { type_ } => {
            lemma_type(env, other, path, ErrorLocationView::StructField, type_);
        },
        ItemEnum::AssocType { generics, bounds, default } => {
            if let Some(typ) = default {
                lemma_type(env, other, path, ErrorLocationView::AssocType, typ);
            }
            lemma_bounds(env, other, path, ErrorLocationView::TraitBound, bounds@, 0);
            lemma_generics(env, other, path, generics);
        },
        ItemEnum::Constant(constant) => {
            lemma_type(env, other, path, ErrorLocationView::Constant, constant.type_);
        },
        ItemEnum::Enum(enm) => {
            lemma_enum(env, other, path, enm, depth);
        },
        ItemEnum::Function(function) => {
            lemma_fn_decl(env, other, path, function.decl);
            lemma_generics(env, other, path, function.generics);
        },
        ItemEnum::Import(import) => {
            lemma_import(env, other, path, item, import, depth);
        },
        ItemEnum::Method(method) => {
            lemma_fn_decl(env, other, path, method.decl);
            lemma_generics(env, other, path, method.generics);
        },
        ItemEnum::Module(module) => {
            lemma_members(env, other, path, module.items@, true, depth, 0);
        },
        ItemEnum::Static(sttc) => {
            lemma_type(env, other, path, ErrorLocationView::Static, sttc.type_);
        },
        ItemEnum::Struct(strct) => {
            lemma_struct(env, other, path, strct, depth);
        },
        ItemEnum::StructField(typ) => {
            lemma_type(env, other, path, ErrorLocationView::StructField, typ);
        },
        ItemEnum::Trait(trt) => {
            lemma_trait(env, other, path, trt, depth);
        },
        ItemEnum::Typedef(typedef) => {
            lemma_type(env, other, path, ErrorLocationView::TypeDef, typedef.type_);
            lemma_generics(env, other, path, typedef.generics);
        },
        ItemEnum::Union(unn) => {
            lemma_union(env, other, path, unn, depth);
        },
        ItemEnum::Variant(variant) => {
            lemma_variant(env, other, path, variant, depth);
        },
        _ => {},
    }
}

proof fn lemma_members(
    env: Env,
    other: Env,
    path: PathView,
    ids: Seq<Id>,
    own_only: bool,
    depth: nat,
    from: nat,
)
    requires
        same_lookups(env, other),
    ensures
        members_outcome(env, path, ids, own_only, depth, from)
            == members_outcome(other, path, ids, own_only, depth, from),
    decreases depth, 2nat, ids.len() - from,
{
    if from < ids.len() {
        if let Some(item) = find(env.index, ids[from as int]@) {
            lemma_item(env, other, path, item, VisibilityCheck::Default, depth);
        }
        lemma_members(env, other, path, ids, own_only, depth, from + 1);
    }
}

proof fn lemma_impl(env: Env, other: Env, path: PathView, item: Item, depth: nat)
    requires
        same_lookups(env, other),
    ensures
        impl_outcome(env, path, item, depth) == impl_outcome(other, path, item, depth),
    decreases depth, 3nat, 0nat,
{
    if let ItemEnum::Impl(imp) = item.inner {
        lemma_generics(env, other, path, imp.generics);
        lemma_members(env, other, path, imp.items@, false, depth, 0);
        if let Some(typ) = imp.trait_ {
            lemma_type(env, other, path, ErrorLocationView::ImplementedTrait, typ);
        }
    }
}

proof fn lemma_impls(env: Env, other: Env, path: PathView, ids: Seq<Id>, depth: nat, from: nat)
    requires
        same_lookups(env, other),
    ensures
        impls_outcome(env, path, ids, depth, from) == impls_outcome(other, path, ids, depth, from),
    decreases depth, 4nat, ids.len() - from,
{
    if from < ids.len() {
        if let Some(item) = find(env.index, ids[from as int]@) {
            lemma_impl(env, other, path, item, depth);
        }
        lemma_impls(env, other, path, ids, depth, from + 1);
    }
}

proof fn lemma_struct(env: Env, other: Env, path: PathView, strct: Struct, depth: nat)
    requires
        same_lookups(env, other),
    ensures
        struct_outcome(env, path, strct, depth) == struct_outcome(other, path, strct, depth),
    decreases depth, 5nat, 0nat,
{
    lemma_generics(env, other, path, strct.generics);
    lemma_members(env, other, path, strct.fields@, false, depth, 0);
    lemma_impls(env, other, path, strct.impls@, depth, 0);
}

proof fn lemma_union(env: Env, other: Env, path: PathView, unn: Union, depth: nat)
    requires
        same_lookups(env, other),
    ensures
        union_outcome(env, path, unn, depth) == union_outcome(other, path, unn, depth),
    decreases depth, 5nat, 0nat,
{
    lemma_generics(env, other, path, unn.generics);
    lemma_members(env, other, path, unn.fields@, false, depth, 0);
    lemma_impls(env, other, path, unn.impls@, depth, 0);
}

proof fn lemma_enum(env: Env, other: Env, path: PathView, enm: Enum, depth: nat)
    requires
        same_lookups(env, other),
    ensures
        enum_outcome(env, path, enm, depth) == enum_outcome(other, path, enm, depth),
    decreases depth, 5nat, 0nat,
{
    lemma_generics(env, other, path, enm.generics);
    lemma_impls(env, other, path, enm.impls@, depth, 0);
    lemma_members(env, other, path, enm.variants@, false, depth, 0);
}

proof fn lemma_trait(env: Env, other: Env, path: PathView, trt: Trait, depth: nat)
    requires
        same_lookups(env, other),
    ensures
        trait_outcome(env, path, trt, depth) == trait_outcome(other, path, trt, depth),
    decreases depth, 5nat, 0nat,
{
    lemma_generics(env, other, path, trt.generics);
    lemma_bounds(env, other, path, ErrorLocationView::TraitBound, trt.bounds@, 0);
    lemma_members(env, other, path, trt.items@, false, depth, 0);
}

proof fn lemma_variant(env: Env, other: Env, path: PathView, variant: Variant, depth: nat)
    requires
        same_lookups(env, other),
    ensures
        variant_outcome(env, path, variant, depth) == variant_outcome(other, path, variant, depth),
    decreases depth, 5nat, 0nat,
{
    match variant {
        Variant::Plain => {},
        Variant::Tuple(types) => {
            lemma_types(env, other, path, ErrorLocationView::EnumTupleEntry, types@, 0);
        },
        Variant::Struct(ids) => {
            lemma_members(env, other, path, ids@, false, depth, 0);
        },
    }
}

/// One if the item is a root module, zero if not.
pub open spec fn root_weight(item: Item) -> nat {
    if is_root_module(item) {
        1
    } else {
        0
    }
}

/// The identities of the members of a module.
pub open spec fn module_items(item: Item) -> Seq<Id> {
    match item.inner {
        ItemEnum::Module(module) => module.items@,
        _ => Seq::empty(),
    }
}

proof fn lemma_count_drop_first(index: Seq<Item>, from: nat)
    requires
        index.len() > 0,
    ensures
        root_module_count(index, from + 1) == root_module_count(index.drop_first(), from),
    decreases index.len() - from,
{
    if from + 1 < index.len() {
        assert(index.drop_first()[from as int] == index[from as int + 1]);
        lemma_count_drop_first(index, from + 1);
    }
}

proof fn lemma_count_remove(index: Seq<Item>, j: int)
    requires
        0 <= j < index.len(),
    ensures
        root_module_count(index, 0) == root_weight(index[j]) + root_module_count(
            index.remove(j),
            0,
        ),
    decreases j,
{
    lemma_count_drop_first(index, 0);
    if j == 0 {
        assert(index.remove(0) =~= index.drop_first());
    } else {
        let rest = index.drop_first();
        lemma_count_remove(rest, j - 1);
        let shorter = index.remove(j);
        assert(shorter[0] == index[0]);
        assert(shorter.drop_first() =~= rest.remove(j - 1));
        lemma_count_drop_first(shorter, 0);
    }
}

/// Where identities are distinct, the number of root modules does not
/// depend on the order of the items.
pub proof fn lemma_root_count_order_independent(a: Seq<Item>, b: Seq<Item>)
    requires
        distinct_keys(a),
        distinct_keys(b),
        same_records(a, b),
    ensures
        root_module_count(a, 0) == root_module_count(b, 0),
    decreases a.len(),
{
    if a.len() == 0 {
        if b.len() > 0 {
            assert(b.contains(b[0]));
            assert(a.contains(b[0]));
        }
    } else {
        let first = a[0];
        assert(a.contains(first));
        assert(b.contains(first));
        let j = choose|j: int| 0 <= j < b.len() && b[j] == first;
        let rest = a.drop_first();
        let others = b.remove(j);
        assert(distinct_keys(rest)) by {
            assert forall|i: int, k: int| 0 <= i < k < rest.len() implies (#[trigger] rest[i]).key()
                != (#[trigger] rest[k]).key() by {
                assert(rest[i] == a[i + 1] && rest[k] == a[k + 1]);
            }
        }
        assert(distinct_keys(others)) by {
            assert forall|i: int, k: int|
                0 <= i < k < others.len() implies (#[trigger] others[i]).key() != (
                #[trigger] others[k]).key() by {
                let x = if i < j {
                    i
                } else {
                    i + 1
                };
                let y = if k < j {
                    k
                } else {
                    k + 1
                };
                assert(others[i] == b[x] && others[k] == b[y]);
            }
        }
        assert forall|e: Item| rest.contains(e) <==> others.contains(e) by {
            if rest.contains(e) {
                let i = choose|i: int| 0 <= i < rest.len() && rest[i] == e;
                assert(a[i + 1] == e);
                assert(a.contains(e));
                let m = choose|m: int| 0 <= m < b.len() && b[m] == e;
                assert(a[0].key() != a[i + 1].key());
                if m < j {
                    assert(others[m] == e);
                } else {
                    assert(others[m - 1] == e);
                }
            }
            if others.contains(e) {
                let m = choose|m: int| 0 <= m < others.len() && others[m] == e;
                let x = if m < j {
                    m
                } else {
                    m + 1
                };
                assert(b[x] == e);
                assert(b.contains(e));
                let i = choose|i: int| 0 <= i < a.len() && a[i] == e;
                if x < j {
                    assert(b[x].key() != b[j].key());
                } else {
                    assert(b[j].key() != b[x].key());
                }
                assert(rest[i - 1] == e);
            }
        }
        lemma_root_count_order_independent(rest, others);
        lemma_count_drop_first(a, 0);
        lemma_count_remove(b, j);
    }
}

proof fn lemma_count_without_root(index: Seq<Item>, from: nat)
    requires
        forall|i: int| from <= i < index.len() ==> !is_root_module(#[trigger] index[i]),
    ensures
        root_module_count(index, from) == 0,
    decreases index.len() - from,
{
    if from < index.len() {
        lemma_count_without_root(index, from + 1);
    }
}

proof fn lemma_count_with_root(index: Seq<Item>, from: nat, at: int)
    requires
        from <= at < index.len(),
        is_root_module(index[at]),
    ensures
        root_module_count(index, from) >= 1,
    decreases at - from,
{
    if from < at {
        lemma_count_with_root(index, from + 1, at);
    }
}

proof fn lemma_count_with_two_roots(index: Seq<Item>, from: nat, one: int, two: int)
    requires
        from <= one < two < index.len(),
        is_root_module(index[one]),
        is_root_module(index[two]),
    ensures
        root_module_count(index, from) >= 2,
    decreases one - from,
{
    if from < one {
        lemma_count_with_two_roots(index, from + 1, one, two);
    } else {
        lemma_count_with_root(index, from + 1, two);
    }
}

proof fn lemma_root_items(index: Seq<Item>, from: nat)
    ensures
        match root_module_items(index, from) {
            Some(items) => exists|i: int|
                from <= i < index.len() && is_root_module(#[trigger] index[i]) && items
                    == module_items(index[i]),
            None => forall|i: int| from <= i < index.len() ==> !is_root_module(#[trigger] index[i]),
        },
    decreases index.len() - from,
{
    if from < index.len() {
        lemma_root_items(index, from + 1);
        if is_root_module(index[from as int]) {
            assert(root_module_items(index, from) == Some(module_items(index[from as int])));
        } else {
            assert(root_module_items(index, from) == root_module_items(index, from + 1));
        }
    }
}

/// Where there is one root module, its members do not depend on the order
/// of the items.
pub proof fn lemma_root_items_order_independent(a: Seq<Item>, b: Seq<Item>)
    requires
        same_records(a, b),
        root_module_count(a, 0) == 1,
        root_module_count(b, 0) == 1,
    ensures
        root_module_items(a, 0) == root_module_items(b, 0),
{
    lemma_root_items(a, 0);
    lemma_root_items(b, 0);
    if root_module_items(a, 0) is None {
        lemma_count_without_root(a, 0);
    }
    if root_module_items(b, 0) is None {
        lemma_count_without_root(b, 0);
    }
    let items = root_module_items(a, 0)->0;
    let i = choose|i: int|
        0 <= i < a.len() && is_root_module(#[trigger] a[i]) && items == module_items(a[i]);
    let others = root_module_items(b, 0)->0;
    let j = choose|j: int|
        0 <= j < b.len() && is_root_module(#[trigger] b[j]) && others == module_items(b[j]);
    assert(a.contains(a[i]));
    assert(b.contains(a[i]));
    let k = choose|k: int| 0 <= k < b.len() && b[k] == a[i];
    if k < j {
        lemma_count_with_two_roots(b, 0, k, j);
    } else if j < k {
        lemma_count_with_two_roots(b, 0, j, k);
    }
}

/// Whether two environments hold the same graph: the same policy and
/// library, and the same items and names, each identity once, in whatever
/// order.
pub open spec fn same_graph(env: Env, other: Env) -> bool {
    &&& env.config == other.config
    &&& env.root_crate_id == other.root_crate_id
    &&& env.root_crate_name == other.root_crate_name
    &&& distinct_keys(env.index)
    &&& distinct_keys(other.index)
    &&& same_records(env.index, other.index)
    &&& distinct_keys(env.paths)
    &&& same_records(env.paths, other.paths)
}

/// Environments that hold the same graph answer alike.
pub proof fn lemma_same_graph_same_lookups(env: Env, other: Env)
    requires
        same_graph(env, other),
    ensures
        same_lookups(env, other),
{
    assert forall|key: Seq<char>| #[trigger] find(env.index, key) == find(other.index, key) by {
        lemma_find_order_independent(env.index, other.index, key);
    }
    assert forall|key: Seq<char>| #[trigger] find(env.paths, key) == find(other.paths, key) by {
        lemma_find_order_independent(env.paths, other.paths, key);
    }
}

/// The traversal does not depend on the order in which a graph lists its
/// items and names: where each identity stands once, as in a map, two
/// listings of the same graph have the same outcome.
pub proof fn lemma_traversal_order_independent(env: Env, other: Env, depth: nat)
    requires
        same_graph(env, other),
    ensures
        graph_outcome(env, depth) == graph_outcome(other, depth),
{
    lemma_same_graph_same_lookups(env, other);
    lemma_root_count_order_independent(env.index, other.index);
    if root_module_count(env.index, 0) == 1 {
        lemma_root_items_order_independent(env.index, other.index);
        lemma_members(
            env,
            other,
            root_path(env),
            root_module_items(env.index, 0)->0,
            false,
            depth,
            0,
        );
    }
}

} // verus!
