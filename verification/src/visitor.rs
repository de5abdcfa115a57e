//! The traversal of the interface graph.

use vstd::prelude::*;
use crate::collector::{ErrorSet, views};
use crate::config::Config;
use crate::error::{ErrorLocation, ErrorLocationView, UnstableFeature, ValidationError, VisitError};
use crate::graph::{
    Crate, Enum, FnDecl, GenericArg, GenericArgs, GenericBound, GenericParamDef,
    GenericParamDefKind, Generics, Id, Import, Item, ItemEnum, ItemSummary, Struct, Term, Trait,
    Type, TypeBinding, TypeBindingKind, Union, Variant, Visibility, WherePredicate,
};
use crate::model::{
    Env, VisibilityCheck, arg_list_outcome, arg_outcome, binding_outcome, bindings_outcome,
    bound_outcome, bounds_outcome, canonical_name, check_outcome, component_of,
    declaration_outcome, enum_outcome, extended, fn_decl_outcome, generic_args_outcome,
    generics_outcome, impl_outcome, impls_outcome, import_outcome, in_root_crate,
    inputs_outcome, is_public_at, is_traversal_result, item_outcome,
    on_course, walked, members_outcome,
    param_def_outcome, param_defs_outcome, receiver_name, root_module_count, root_module_items,
    root_path, root_prefix, struct_outcome, trait_outcome, type_outcome, types_outcome,
    union_outcome, variant_outcome, where_predicates_outcome,
};
use crate::path::{ComponentType, Path};
use crate::table::{Table, find};
use crate::text::{Order, compare_text, decimal_string, join_segments, starts_with};

verus! {

/// The number of levels of nested items that a traversal descends unless it
/// is told otherwise.
pub const DEFAULT_DEPTH_LIMIT: usize = 256;

/// Visits the items of an interface graph to find the external types in the
/// public interface of a library, and records those that the policy does not
/// allow.
pub struct Visitor {
    config: Config,
    root_crate_id: u32,
    root_crate_name: String,
    root_prefix: String,
    index: Table<Item>,
    paths: Table<ItemSummary>,
    depth_limit: usize,
}

impl Visitor {
    #[verifier::type_invariant]
    spec fn well_formed(&self) -> bool {
        self.root_prefix@ == root_prefix(self.root_crate_id)
    }

    /// What the visitor works on.
    pub closed spec fn env(&self) -> Env {
        Env {
            config: self.config,
            root_crate_id: self.root_crate_id,
            root_crate_name: self.root_crate_name@,
            index: self.index.entries(),
            paths: self.paths.entries(),
        }
    }

    /// The number of levels of nested items that the traversal descends.
    pub closed spec fn depth_limit(&self) -> nat {
        self.depth_limit as nat
    }

    /// A visitor for the given graph under the given policy. The root of the
    /// graph has to be in its index and to have a name: number and name of
    /// the library under inspection are taken from it.
    pub fn new(config: Config, package: Crate) -> (r: Result<Visitor, VisitError>)
        ensures
            match r {
                Ok(visitor) => {
                    &&& find(package.index@, package.root@) matches Some(root)
                    &&& root.name matches Some(name)
                    &&& visitor.env() == (Env {
                        config,
                        root_crate_id: root.crate_id,
                        root_crate_name: name@,
                        index: package.index@,
                        paths: package.paths@,
                    })
                    &&& visitor.depth_limit() == DEFAULT_DEPTH_LIMIT
                },
                Err(fault) => match find(package.index@, package.root@) {
                    Some(root) => root.name is None && fault == VisitError::RootUnnamed,
                    None => fault == VisitError::RootNotFound,
                },
            },
    {
        let index = Table::new(package.index);
        let paths = Table::new(package.paths);
        let (root_crate_id, root_crate_name) = match index.get(package.root.0.as_str()) {
            Some(root) => match &root.name {
                Some(name) => (root.crate_id, name.clone()),
                None => {
                    return Err(VisitError::RootUnnamed);
                },
            },
            None => {
                return Err(VisitError::RootNotFound);
            },
        };
        let mut root_prefix = decimal_string(root_crate_id);
        proof {
            reveal_strlit(":");
            assert(root_prefix@ + ":"@ =~= root_prefix@.push(':'));
        }
        root_prefix.append(":");
        Ok(
            Visitor {
                config,
                root_crate_id,
                root_crate_name,
                root_prefix,
                index,
                paths,
                depth_limit: DEFAULT_DEPTH_LIMIT,
            },
        )
    }

    /// The same visitor with another limit on the depth of nested items.
    pub fn with_depth_limit(self, limit: usize) -> (r: Visitor)
        ensures
            r.env() == self.env(),
            r.depth_limit() == limit,
    {
        proof {
            use_type_invariant(&self);
        }
        Visitor {
            config: self.config,
            root_crate_id: self.root_crate_id,
            root_crate_name: self.root_crate_name,
            root_prefix: self.root_prefix,
            index: self.index,
            paths: self.paths,
            depth_limit: limit,
        }
    }

    /// Whether an item that stands at the end of `path` is public. For some
    /// items this follows from where they stand: the variants of an
    /// enumeration are as public as the enumeration, the fields of a variant
    /// as the variant, and the members of a trait as the trait, whatever
    /// marker they carry themselves. The marker decides for all others.
    pub fn is_public(path: &Path, item: &Item) -> (b: bool)
        ensures
            b == is_public_at(path@, *item),
    {
        match (path.last_type(), &item.inner) {
            // The variants of an enumeration are as public as the enumeration.
            (Some(ComponentType::Enum), ItemEnum::Variant(_)) => true,
            // The fields of a variant are as public as the variant.
            (Some(ComponentType::EnumVariant), ItemEnum::StructField(_)) => true,
            // The members of a trait are as public as the trait.
            (Some(ComponentType::Trait), _) => true,
            _ => match item.visibility {
                Visibility::Public => true,
                Visibility::Default => false,
                Visibility::Crate => false,
                Visibility::Restricted => false,
            },
        }
    }

    /// The item with the given identity.
    pub fn item(&self, id: &Id) -> (r: Result<&Item, VisitError>)
        ensures
            match r {
                Ok(item) => find(self.env().index, id@) == Some(*item),
                Err(fault) => {
                    &&& find(self.env().index, id@) is None
                    &&& fault == VisitError::ItemNotFound(*id)
                },
            },
    {
        match self.index.get(id.0.as_str()) {
            Some(item) => Ok(item),
            None => Err(VisitError::ItemNotFound(id.clone())),
        }
    }

    /// The canonical name of the item with the given identity.
    pub fn canonical_name(&self, id: &Id) -> (r: Option<String>)
        ensures
            match r {
                Some(name) => canonical_name(self.env(), *id) == Some(name@),
                None => canonical_name(self.env(), *id) is None,
            },
    {
        match self.paths.get(id.0.as_str()) {
            Some(summary) => Some(join_segments(&summary.path)),
            None => None,
        }
    }

    /// Whether the identity belongs to the library under inspection.
    pub fn in_root_crate(&self, id: &Id) -> (b: bool)
        ensures
            b == in_root_crate(self.env(), *id),
    {
        proof {
            use_type_invariant(self);
        }
        starts_with(id.0.as_str(), self.root_prefix.as_str())
    }

    /// Checks one reference to an item, and records it if the policy does
    /// not allow it.
    pub fn check_external(
        &self,
        path: &Path,
        what: &ErrorLocation,
        id: &Id,
        errors: &mut ErrorSet,
    ) -> (r: Result<(), VisitError>)
        ensures
            walked(old(errors)@, final(errors)@, r, check_outcome(self.env(), path@, what@, *id)),
    {
        match self.canonical_name(id) {
            Some(name) => {
                if !self.config.allows_type(self.root_crate_name.as_str(), name.as_str()) {
                    let error = ValidationError::unapproved_external_type_ref(
                        name,
                        what,
                        path.to_string(),
                        path.last_span(),
                    );
                    errors.insert(error);
                }
                Ok(())
            },
            None => {
                // An item may refer to a type that the graph gives no name,
                // but only to one of the library's own.
                if self.in_root_crate(id) {
                    Ok(())
                } else {
                    Err(VisitError::UnresolvedReference(id.clone()))
                }
            },
        }
    }

    /// Walks a type that is used as `what`.
    pub fn visit_type(
        &self,
        path: &Path,
        what: &ErrorLocation,
        typ: &Type,
        errors: &mut ErrorSet,
    ) -> (r: Result<(), VisitError>)
        ensures
            walked(old(errors)@, final(errors)@, r, type_outcome(self.env(), path@, what@, *typ)),
        decreases *typ, 0nat,
    {
        match typ {
            Type::ResolvedPath { id, args, param_names, .. } => {
                self.check_external(path, what, id, errors)?;
                if let Some(args) = args {
                    self.visit_generic_args(path, args, errors)?;
                }
                self.visit_generic_bounds(path, param_names, errors)
            },
            Type::Generic(_) => Ok(()),
            Type::Primitive(_) => Ok(()),
            Type::FunctionPointer(pointer) => {
                self.visit_fn_decl(path, &pointer.decl, errors)?;
                self.visit_generic_param_defs(path, &pointer.generic_params, errors)
            },
            Type::Tuple(types) => self.visit_types(
                path,
                &ErrorLocation::EnumTupleEntry,
                types,
                errors,
            ),
            Type::Slice(inner) => self.visit_type(path, what, inner, errors),
            Type::Array { type_ } => self.visit_type(path, what, type_, errors),
            Type::ImplTrait(bounds) => self.visit_bounds(path, what, bounds, errors),
            Type::Infer => Err(VisitError::InferredType),
            Type::RawPointer { type_ } => self.visit_type(path, what, type_, errors),
            Type::BorrowedRef { type_ } => self.visit_type(path, what, type_, errors),
            Type::QualifiedPath { self_type, trait_, .. } => {
                self.visit_type(path, &ErrorLocation::QualifiedSelfType, self_type, errors)?;
                self.visit_type(path, &ErrorLocation::QualifiedSelfTypeAsTrait, trait_, errors)
            },
        }
    }

    /// Walks the types of a list, each used as `what`.
    pub fn visit_types(
        &self,
        path: &Path,
        what: &ErrorLocation,
        types: &Vec<Type>,
        errors: &mut ErrorSet,
    ) -> (r: Result<(), VisitError>)
        ensures
            walked(
                old(errors)@,
                final(errors)@,
                r,
                types_outcome(self.env(), path@, what@, types@, 0),
            ),
        decreases *types, 0nat,
    {
        let mut i: usize = 0;
        while i < types.len()
            invariant
                i <= types.len(),
                on_course(
                    old(errors)@,
                    types_outcome(self.env(), path@, what@, types@, 0),
                    errors@,
                    types_outcome(self.env(), path@, what@, types@, i as nat),
                ),
            decreases types.len() - i,
        {
            self.visit_type(path, what, &types[i], errors)?;
            i = i + 1;
        }
        Ok(())
    }

    /// Walks the bounds of a list. The trait of each is used as `what`.
    pub fn visit_bounds(
        &self,
        path: &Path,
        what: &ErrorLocation,
        bounds: &Vec<GenericBound>,
        errors: &mut ErrorSet,
    ) -> (r: Result<(), VisitError>)
        ensures
            walked(
                old(errors)@,
                final(errors)@,
                r,
                bounds_outcome(self.env(), path@, what@, bounds@, 0),
            ),
        decreases *bounds, 0nat,
    {
        let mut i: usize = 0;
        while i < bounds.len()
            invariant
                i <= bounds.len(),
                on_course(
                    old(errors)@,
                    bounds_outcome(self.env(), path@, what@, bounds@, 0),
                    errors@,
                    bounds_outcome(self.env(), path@, what@, bounds@, i as nat),
                ),
            decreases bounds.len() - i,
        {
            assert(bounds_outcome(self.env(), path@, what@, bounds@, i as nat) == bound_outcome(
                self.env(),
                path@,
                what@,
                bounds@[i as int],
            ).followed_by(bounds_outcome(self.env(), path@, what@, bounds@, (i + 1) as nat)));
            match &bounds[i] {
                GenericBound::TraitBound { trait_, generic_params } => {
                    self.visit_type(path, what, trait_, errors)?;
                    self.visit_generic_param_defs(path, generic_params, errors)?;
                },
                GenericBound::Outlives => {},
            }
            i = i + 1;
        }
        Ok(())
    }

    /// Walks the bounds on a generic parameter or on a type.
    pub fn visit_generic_bounds(
        &self,
        path: &Path,
        bounds: &Vec<GenericBound>,
        errors: &mut ErrorSet,
    ) -> (r: Result<(), VisitError>)
        ensures
            walked(
                old(errors)@,
                final(errors)@,
                r,
                bounds_outcome(self.env(), path@, ErrorLocationView::TraitBound, bounds@, 0),
            ),
        decreases *bounds, 1nat,
    {
        self.visit_bounds(path, &ErrorLocation::TraitBound, bounds, errors)
    }

    /// Walks the definitions of generic parameters.
    pub fn visit_generic_param_defs(
        &self,
        path: &Path,
        params: &Vec<GenericParamDef>,
        errors: &mut ErrorSet,
    ) -> (r: Result<(), VisitError>)
        ensures
            walked(
                old(errors)@,
                final(errors)@,
                r,
                param_defs_outcome(self.env(), path@, params@, 0),
            ),
        decreases *params, 0nat,
    {
        let mut i: usize = 0;
        while i < params.len()
            invariant
                i <= params.len(),
                on_course(
                    old(errors)@,
                    param_defs_outcome(self.env(), path@, params@, 0),
                    errors@,
                    param_defs_outcome(self.env(), path@, params@, i as nat),
                ),
            decreases params.len() - i,
        {
            assert(param_defs_outcome(self.env(), path@, params@, i as nat) == param_def_outcome(
                self.env(),
                path@,
                params@[i as int],
            ).followed_by(param_defs_outcome(self.env(), path@, params@, (i + 1) as nat)));
            match &params[i].kind {
                GenericParamDefKind::Type { bounds, default } => {
                    self.visit_generic_bounds(path, bounds, errors)?;
                    if let Some(typ) = default {
                        self.visit_type(path, &ErrorLocation::GenericDefaultBinding, typ, errors)?;
                    }
                },
                GenericParamDefKind::Const { type_ } => {
                    self.visit_type(path, &ErrorLocation::ConstGeneric, type_, errors)?;
                },
                GenericParamDefKind::Lifetime => {},
            }
            i = i + 1;
        }
        Ok(())
    }

    /// Walks the generic arguments of a path.
    pub fn visit_generic_args(
        &self,
        path: &Path,
        args: &GenericArgs,
        errors: &mut ErrorSet,
    ) -> (r: Result<(), VisitError>)
        ensures
            walked(old(errors)@, final(errors)@, r, generic_args_outcome(self.env(), path@, *args)),
        decreases *args, 0nat,
    {
        match args {
            GenericArgs::AngleBracketed { args, bindings } => {
                self.visit_arg_list(path, args, errors)?;
                self.visit_bindings(path, bindings, errors)
            },
            GenericArgs::Parenthesized { inputs, output } => {
                self.visit_types(path, &ErrorLocation::ClosureInput, inputs, errors)?;
                if let Some(output) = output {
                    self.visit_type(path, &ErrorLocation::ClosureOutput, output, errors)?;
                }
                Ok(())
            },
        }
    }

    /// Walks the generic arguments of a list: the types among them.
    pub fn visit_arg_list(
        &self,
        path: &Path,
        args: &Vec<GenericArg>,
        errors: &mut ErrorSet,
    ) -> (r: Result<(), VisitError>)
        ensures
            walked(old(errors)@, final(errors)@, r, arg_list_outcome(self.env(), path@, args@, 0)),
        decreases *args, 0nat,
    {
        let mut i: usize = 0;
        while i < args.len()
            invariant
                i <= args.len(),
                on_course(
                    old(errors)@,
                    arg_list_outcome(self.env(), path@, args@, 0),
                    errors@,
                    arg_list_outcome(self.env(), path@, args@, i as nat),
                ),
            decreases args.len() - i,
        {
            assert(arg_list_outcome(self.env(), path@, args@, i as nat) == arg_outcome(
                self.env(),
                path@,
                args@[i as int],
            ).followed_by(arg_list_outcome(self.env(), path@, args@, (i + 1) as nat)));
            match &args[i] {
                GenericArg::Type(typ) => {
                    self.visit_type(path, &ErrorLocation::GenericArg, typ, errors)?;
                },
                GenericArg::Lifetime => {},
                GenericArg::Const => {},
                GenericArg::Infer => {},
            }
            i = i + 1;
        }
        Ok(())
    }

    /// Walks the bindings of associated types of a list.
    pub fn visit_bindings(
        &self,
        path: &Path,
        bindings: &Vec<TypeBinding>,
        errors: &mut ErrorSet,
    ) -> (r: Result<(), VisitError>)
        ensures
            walked(
                old(errors)@,
                final(errors)@,
                r,
                bindings_outcome(self.env(), path@, bindings@, 0),
            ),
        decreases *bindings, 0nat,
    {
        let mut i: usize = 0;
        while i < bindings.len()
            invariant
                i <= bindings.len(),
                on_course(
                    old(errors)@,
                    bindings_outcome(self.env(), path@, bindings@, 0),
                    errors@,
                    bindings_outcome(self.env(), path@, bindings@, i as nat),
                ),
            decreases bindings.len() - i,
        {
            assert(bindings_outcome(self.env(), path@, bindings@, i as nat) == binding_outcome(
                self.env(),
                path@,
                bindings@[i as int],
            ).followed_by(bindings_outcome(self.env(), path@, bindings@, (i + 1) as nat)));
            match &bindings[i].binding {
                TypeBindingKind::Equality(term) => {
                    if let Term::Type(typ) = term {
                        self.visit_type(path, &ErrorLocation::GenericDefaultBinding, typ, errors)?;
                    }
                },
                TypeBindingKind::Constraint(bounds) => {
                    self.visit_generic_bounds(path, bounds, errors)?;
                },
            }
            i = i + 1;
        }
        Ok(())
    }

    /// Walks the inputs of a signature, but for the receiver.
    pub fn visit_inputs(
        &self,
        path: &Path,
        inputs: &Vec<(String, Type)>,
        errors: &mut ErrorSet,
    ) -> (r: Result<(), VisitError>)
        ensures
            walked(old(errors)@, final(errors)@, r, inputs_outcome(self.env(), path@, inputs@, 0)),
        decreases *inputs, 0nat,
    {
        let mut i: usize = 0;
        while i < inputs.len()
            invariant
                i <= inputs.len(),
                on_course(
                    old(errors)@,
                    inputs_outcome(self.env(), path@, inputs@, 0),
                    errors@,
                    inputs_outcome(self.env(), path@, inputs@, i as nat),
                ),
            decreases inputs.len() - i,
        {
            let input = &inputs[i];
            proof {
                reveal_strlit("self");
                assert("self"@ =~= receiver_name());
            }
            let receiver = i == 0 && compare_text(input.0.as_str(), "self") == Order::Equal;
            if !receiver {
                let what = ErrorLocation::ArgumentNamed(input.0.clone());
                self.visit_type(path, &what, &input.1, errors)?;
            }
            i = i + 1;
        }
        Ok(())
    }

    /// Walks a signature: the types of its inputs, then the type of its
    /// output.
    pub fn visit_fn_decl(
        &self,
        path: &Path,
        decl: &FnDecl,
        errors: &mut ErrorSet,
    ) -> (r: Result<(), VisitError>)
        ensures
            walked(old(errors)@, final(errors)@, r, fn_decl_outcome(self.env(), path@, *decl)),
        decreases *decl, 0nat,
    {
        self.visit_inputs(path, &decl.inputs, errors)?;
        if let Some(output) = &decl.output {
            self.visit_type(path, &ErrorLocation::ReturnValue, output, errors)?;
        }
        Ok(())
    }

    /// Walks the clauses of a `where` list.
    pub fn visit_where_predicates(
        &self,
        path: &Path,
        predicates: &Vec<WherePredicate>,
        errors: &mut ErrorSet,
    ) -> (r: Result<(), VisitError>)
        ensures
            walked(
                old(errors)@,
                final(errors)@,
                r,
                where_predicates_outcome(self.env(), path@, predicates@, 0),
            ),
    {
        let mut i: usize = 0;
        while i < predicates.len()
            invariant
                i <= predicates.len(),
                on_course(
                    old(errors)@,
                    where_predicates_outcome(self.env(), path@, predicates@, 0),
                    errors@,
                    where_predicates_outcome(self.env(), path@, predicates@, i as nat),
                ),
            decreases predicates.len() - i,
        {
            match &predicates[i] {
                WherePredicate::BoundPredicate { type_, bounds, generic_params } => {
                    self.visit_type(path, &ErrorLocation::WhereBound, type_, errors)?;
                    self.visit_generic_bounds(path, bounds, errors)?;
                    self.visit_generic_param_defs(path, generic_params, errors)?;
                },
                WherePredicate::RegionPredicate { bounds } => {
                    self.visit_generic_bounds(path, bounds, errors)?;
                },
                WherePredicate::EqPredicate { lhs } => {
                    self.visit_type(path, &ErrorLocation::WhereBound, lhs, errors)?;
                },
            }
            i = i + 1;
        }
        Ok(())
    }

    /// Walks the generic parameters of a declaration and its `where` list.
    pub fn visit_generics(
        &self,
        path: &Path,
        generics: &Generics,
        errors: &mut ErrorSet,
    ) -> (r: Result<(), VisitError>)
        ensures
            walked(old(errors)@, final(errors)@, r, generics_outcome(self.env(), path@, *generics)),
    {
        self.visit_generic_param_defs(path, &generics.params, errors)?;
        self.visit_where_predicates(path, &generics.where_predicates, errors)
    }

    /// The kind of path component that stands for an item of the given kind.
    pub fn component_type(inner: &ItemEnum) -> (t: Option<ComponentType>)
        ensures
            t == component_of(*inner),
    {
        match inner {
            ItemEnum::AssocConst { .. } => Some(ComponentType::AssocConst),
            ItemEnum::AssocType { .. } => Some(ComponentType::AssocType),
            ItemEnum::Constant(_) => Some(ComponentType::Constant),
            ItemEnum::Enum(_) => Some(ComponentType::Enum),
            ItemEnum::Function(_) => Some(ComponentType::Function),
            ItemEnum::Method(_) => Some(ComponentType::Method),
            ItemEnum::Module(module) => if module.is_crate {
                None
            } else {
                Some(ComponentType::Module)
            },
            ItemEnum::Static(_) => Some(ComponentType::Static),
            ItemEnum::Struct(_) => Some(ComponentType::Struct),
            ItemEnum::StructField(_) => Some(ComponentType::StructField),
            ItemEnum::Trait(_) => Some(ComponentType::Trait),
            ItemEnum::Typedef(_) => Some(ComponentType::TypeDef),
            ItemEnum::Union(_) => Some(ComponentType::Union),
            ItemEnum::Variant(_) => Some(ComponentType::EnumVariant),
            ItemEnum::ExternCrate => None,
            ItemEnum::ForeignType => None,
            ItemEnum::Impl(_) => None,
            ItemEnum::Import(_) => None,
            ItemEnum::Macro => None,
            ItemEnum::OpaqueTy => None,
            ItemEnum::PrimitiveType => None,
            ItemEnum::ProcMacro => None,
            ItemEnum::TraitAlias => None,
        }
    }

    /// The path extended by a component for the item. The path it is given
    /// stays as it was, so that what is visited next starts from there.
    pub fn enter(path: &Path, typ: ComponentType, item: &Item) -> (r: Result<Path, VisitError>)
        ensures
            match r {
                Ok(inner) => item.name is Some && inner@ == extended(path@, typ, *item),
                Err(fault) => item.name is None && fault == VisitError::UnnamedItem(item.id),
            },
    {
        match &item.name {
            Some(name) => {
                let mut inner = path.clone();
                inner.push_raw(typ, name.as_str(), item.span.as_ref());
                Ok(inner)
            },
            None => Err(VisitError::UnnamedItem(item.id.clone())),
        }
    }

    /// Visits an item that was reached at `path`, with `depth` levels of
    /// nesting left to go.
    pub fn visit_item(
        &self,
        path: &Path,
        item: &Item,
        check: VisibilityCheck,
        depth: usize,
        errors: &mut ErrorSet,
    ) -> (r: Result<(), VisitError>)
        ensures
            walked(
                old(errors)@,
                final(errors)@,
                r,
                item_outcome(self.env(), path@, *item, check, depth as nat),
            ),
        decreases depth, 1nat, 0nat,
    {
        if check == VisibilityCheck::Default && !Self::is_public(path, item) {
            return Ok(());
        }
        if depth == 0 {
            return Err(VisitError::DepthLimitExceeded);
        }
        match Self::component_type(&item.inner) {
            Some(typ) => {
                let path = Self::enter(path, typ, item)?;
                self.visit_declaration(&path, item, depth - 1, errors)
            },
            None => self.visit_declaration(path, item, depth - 1, errors),
        }
    }

    /// Visits a re-export. The visibility check is overridden for the item
    /// that is re-exported: with the visibility it has in its own module, a
    /// private item would yield no violations though it is now public.
    pub fn visit_import(
        &self,
        path: &Path,
        item: &Item,
        import: &Import,
        depth: usize,
        errors: &mut ErrorSet,
    ) -> (r: Result<(), VisitError>)
        ensures
            walked(
                old(errors)@,
                final(errors)@,
                r,
                import_outcome(self.env(), path@, *item, *import, depth as nat),
            ),
        decreases depth, 3nat, 0nat,
    {
        match &import.id {
            Some(target) => {
                if self.in_root_crate(target) {
                    let found = self.item(target)?;
                    self.visit_item(path, found, VisibilityCheck::AssumePublic, depth, errors)?;
                }
                let mut path = path.clone();
                path.push_raw(ComponentType::ReExport, import.name.as_str(), item.span.as_ref());
                self.check_external(&path, &ErrorLocation::ReExport, target, errors)
            },
            None => Ok(()),
        }
    }

    /// Walks what an item declares, by the kind of the item, at the path that
    /// already names the item.
    pub fn visit_declaration(
        &self,
        path: &Path,
        item: &Item,
        depth: usize,
        errors: &mut ErrorSet,
    ) -> (r: Result<(), VisitError>)
        ensures
            walked(
                old(errors)@,
                final(errors)@,
                r,
                declaration_outcome(self.env(), path@, *item, depth as nat),
            ),
        decreases depth, 6nat, 0nat,
    {
        match &item.inner {
            ItemEnum::AssocConst { type_ } => self.visit_type(
                path,
                &ErrorLocation::StructField,
                type_,
                errors,
            ),
            ItemEnum::AssocType { generics, bounds, default } => {
                if let Some(typ) = default {
                    self.visit_type(path, &ErrorLocation::AssocType, typ, errors)?;
                }
                self.visit_generic_bounds(path, bounds, errors)?;
                self.visit_generics(path, generics, errors)
            },
            ItemEnum::Constant(constant) => self.visit_type(
                path,
                &ErrorLocation::Constant,
                &constant.type_,
                errors,
            ),
            ItemEnum::Enum(enm) => self.visit_enum(path, enm, depth, errors),
            ItemEnum::Function(function) => {
                self.visit_fn_decl(path, &function.decl, errors)?;
                self.visit_generics(path, &function.generics, errors)
            },
            ItemEnum::Import(import) => self.visit_import(path, item, import, depth, errors),
            ItemEnum::Method(method) => {
                self.visit_fn_decl(path, &method.decl, errors)?;
                self.visit_generics(path, &method.generics, errors)
            },
            // A re-export shows up twice in a module: once as the import, and
            // once as the item itself, as if the module declared it, but with
            // the number of the package it comes from. Only the import is
            // examined: it holds the place in the source where the re-export
            // stands.
            ItemEnum::Module(module) => self.visit_members(
                path,
                &module.items,
                true,
                depth,
                errors,
            ),
            ItemEnum::Static(sttc) => self.visit_type(
                path,
                &ErrorLocation::Static,
                &sttc.type_,
                errors,
            ),
            ItemEnum::Struct(strct) => self.visit_struct(path, strct, depth, errors),
            ItemEnum::StructField(typ) => self.visit_type(
                path,
                &ErrorLocation::StructField,
                typ,
                errors,
            ),
            ItemEnum::Trait(trt) => self.visit_trait(path, trt, depth, errors),
            ItemEnum::Typedef(typedef) => {
                self.visit_type(path, &ErrorLocation::TypeDef, &typedef.type_, errors)?;
                self.visit_generics(path, &typedef.generics, errors)
            },
            ItemEnum::Union(unn) => self.visit_union(path, unn, depth, errors),
            ItemEnum::Variant(variant) => self.visit_variant(path, variant, depth, errors),
            ItemEnum::ForeignType => Err(
                VisitError::UnsupportedFeature(UnstableFeature::ExternTypes),
            ),
            ItemEnum::OpaqueTy => Err(
                VisitError::UnsupportedFeature(UnstableFeature::TypeAliasImplTrait),
            ),
            ItemEnum::TraitAlias => Err(
                VisitError::UnsupportedFeature(UnstableFeature::TraitAlias),
            ),
            ItemEnum::ExternCrate => Ok(()),
            ItemEnum::Impl(_) => Ok(()),
            ItemEnum::Macro => Ok(()),
            ItemEnum::PrimitiveType => Ok(()),
            ItemEnum::ProcMacro => Ok(()),
        }
    }

    /// Visits the items with the given identities. With `own_only`, items
    /// that another package defines are passed over.
    pub fn visit_members(
        &self,
        path: &Path,
        ids: &Vec<Id>,
        own_only: bool,
        depth: usize,
        errors: &mut ErrorSet,
    ) -> (r: Result<(), VisitError>)
        ensures
            walked(
                old(errors)@,
                final(errors)@,
                r,
                members_outcome(self.env(), path@, ids@, own_only, depth as nat, 0),
            ),
        decreases depth, 2nat, 0nat,
    {
        let mut i: usize = 0;
        while i < ids.len()
            invariant
                i <= ids.len(),
                on_course(
                    old(errors)@,
                    members_outcome(self.env(), path@, ids@, own_only, depth as nat, 0),
                    errors@,
                    members_outcome(self.env(), path@, ids@, own_only, depth as nat, i as nat),
                ),
            decreases ids.len() - i,
        {
            let item = self.item(&ids[i])?;
            if !own_only || item.crate_id == self.root_crate_id {
                self.visit_item(path, item, VisibilityCheck::Default, depth, errors)?;
            }
            i = i + 1;
        }
        Ok(())
    }

    /// Walks one implementation block. A blanket implementation is passed
    /// over.
    pub fn visit_impl(
        &self,
        path: &Path,
        item: &Item,
        depth: usize,
        errors: &mut ErrorSet,
    ) -> (r: Result<(), VisitError>)
        ensures
            walked(
                old(errors)@,
                final(errors)@,
                r,
                impl_outcome(self.env(), path@, *item, depth as nat),
            ),
        decreases depth, 3nat, 0nat,
    {
        match &item.inner {
            ItemEnum::Impl(imp) => {
                if imp.blanket {
                    return Ok(());
                }
                self.visit_generics(path, &imp.generics, errors)?;
                self.visit_members(path, &imp.items, false, depth, errors)?;
                if let Some(typ) = &imp.trait_ {
                    self.visit_type(path, &ErrorLocation::ImplementedTrait, typ, errors)?;
                }
                Ok(())
            },
            _ => Err(VisitError::NotAnImpl(item.id.clone())),
        }
    }

    /// Walks the implementation blocks with the given identities.
    pub fn visit_impls(
        &self,
        path: &Path,
        ids: &Vec<Id>,
        depth: usize,
        errors: &mut ErrorSet,
    ) -> (r: Result<(), VisitError>)
        ensures
            walked(
                old(errors)@,
                final(errors)@,
                r,
                impls_outcome(self.env(), path@, ids@, depth as nat, 0),
            ),
        decreases depth, 4nat, 0nat,
    {
        let mut i: usize = 0;
        while i < ids.len()
            invariant
                i <= ids.len(),
                on_course(
                    old(errors)@,
                    impls_outcome(self.env(), path@, ids@, depth as nat, 0),
                    errors@,
                    impls_outcome(self.env(), path@, ids@, depth as nat, i as nat),
                ),
            decreases ids.len() - i,
        {
            let item = self.item(&ids[i])?;
            self.visit_impl(path, item, depth, errors)?;
            i = i + 1;
        }
        Ok(())
    }

    /// Walks a structure: generics, fields, implementation blocks.
    pub fn visit_struct(
        &self,
        path: &Path,
        strct: &Struct,
        depth: usize,
        errors: &mut ErrorSet,
    ) -> (r: Result<(), VisitError>)
        ensures
            walked(
                old(errors)@,
                final(errors)@,
                r,
                struct_outcome(self.env(), path@, *strct, depth as nat),
            ),
        decreases depth, 5nat, 0nat,
    {
        self.visit_generics(path, &strct.generics, errors)?;
        self.visit_members(path, &strct.fields, false, depth, errors)?;
        self.visit_impls(path, &strct.impls, depth, errors)
    }

    /// Walks a union: generics, fields, implementation blocks.
    pub fn visit_union(
        &self,
        path: &Path,
        unn: &Union,
        depth: usize,
        errors: &mut ErrorSet,
    ) -> (r: Result<(), VisitError>)
        ensures
            walked(
                old(errors)@,
                final(errors)@,
                r,
                union_outcome(self.env(), path@, *unn, depth as nat),
            ),
        decreases depth, 5nat, 0nat,
    {
        self.visit_generics(path, &unn.generics, errors)?;
        self.visit_members(path, &unn.fields, false, depth, errors)?;
        self.visit_impls(path, &unn.impls, depth, errors)
    }

    /// Walks an enumeration: generics, implementation blocks, variants.
    pub fn visit_enum(
        &self,
        path: &Path,
        enm: &Enum,
        depth: usize,
        errors: &mut ErrorSet,
    ) -> (r: Result<(), VisitError>)
        ensures
            walked(
                old(errors)@,
                final(errors)@,
                r,
                enum_outcome(self.env(), path@, *enm, depth as nat),
            ),
        decreases depth, 5nat, 0nat,
    {
        self.visit_generics(path, &enm.generics, errors)?;
        self.visit_impls(path, &enm.impls, depth, errors)?;
        self.visit_members(path, &enm.variants, false, depth, errors)
    }

    /// Walks a trait: generics, the bounds on implementors, members.
    pub fn visit_trait(
        &self,
        path: &Path,
        trt: &Trait,
        depth: usize,
        errors: &mut ErrorSet,
    ) -> (r: Result<(), VisitError>)
        ensures
            walked(
                old(errors)@,
                final(errors)@,
                r,
                trait_outcome(self.env(), path@, *trt, depth as nat),
            ),
        decreases depth, 5nat, 0nat,
    {
        self.visit_generics(path, &trt.generics, errors)?;
        self.visit_generic_bounds(path, &trt.bounds, errors)?;
        self.visit_members(path, &trt.items, false, depth, errors)
    }

    /// Walks a variant of an enumeration.
    pub fn visit_variant(
        &self,
        path: &Path,
        variant: &Variant,
        depth: usize,
        errors: &mut ErrorSet,
    ) -> (r: Result<(), VisitError>)
        ensures
            walked(
                old(errors)@,
                final(errors)@,
                r,
                variant_outcome(self.env(), path@, *variant, depth as nat),
            ),
        decreases depth, 5nat, 0nat,
    {
        match variant {
            Variant::Plain => Ok(()),
            Variant::Tuple(types) => self.visit_types(
                path,
                &ErrorLocation::EnumTupleEntry,
                types,
                errors,
            ),
            Variant::Struct(ids) => self.visit_members(path, ids, false, depth, errors),
        }
    }

    /// The members of the module that is marked as the root container of the
    /// library. There has to be exactly one such module.
    pub fn root_module(&self) -> (r: Result<&Vec<Id>, VisitError>)
        ensures
            match r {
                Ok(items) => root_module_count(self.env().index, 0) == 1 && root_module_items(
                    self.env().index,
                    0,
                ) == Some(items@),
                Err(fault) => if root_module_count(self.env().index, 0) == 0 {
                    fault == VisitError::RootModuleMissing
                } else {
                    &&& root_module_count(self.env().index, 0) > 1
                    &&& fault == VisitError::RootModuleAmbiguous
                },
            },
    {
        let ghost index = self.env().index;
        let mut root: Option<&Vec<Id>> = None;
        let mut i: usize = 0;
        while i < self.index.len()
            invariant
                i <= index.len(),
                index == self.env().index,
                index == self.index.entries(),
                match root {
                    Some(items) => {
                        &&& root_module_count(index, 0) == 1 + root_module_count(index, i as nat)
                        &&& root_module_items(index, 0) == Some(items@)
                    },
                    None => {
                        &&& root_module_count(index, 0) == root_module_count(index, i as nat)
                        &&& root_module_items(index, 0) == root_module_items(index, i as nat)
                    },
                },
            decreases index.len() - i,
        {
            if let ItemEnum::Module(module) = &self.index.entry(i).inner {
                if module.is_crate {
                    if root.is_some() {
                        return Err(VisitError::RootModuleAmbiguous);
                    }
                    root = Some(&module.items);
                }
            }
            i = i + 1;
        }
        match root {
            Some(items) => Ok(items),
            None => Err(VisitError::RootModuleMissing),
        }
    }

    /// Visits the whole graph, starting from the members of the root module,
    /// and reports the violations of the policy in order, each once. A fault
    /// in the graph ends the traversal, and is returned in place of a
    /// report.
    pub fn visit_all(self) -> (r: Result<Vec<ValidationError>, VisitError>)
        ensures
            match r {
                Ok(report) => is_traversal_result(
                    self.env(),
                    self.depth_limit(),
                    Ok(views(report@)),
                ),
                Err(fault) => is_traversal_result(self.env(), self.depth_limit(), Err(fault)),
            },
    {
        let items = self.root_module()?;
        let root_path = Path::new(self.root_crate_name.as_str());
        let mut errors = ErrorSet::new();
        self.visit_members(&root_path, items, false, self.depth_limit, &mut errors)?;
        Ok(errors.into_sorted_vec())
    }
}

} // verus!
