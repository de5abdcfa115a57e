use check_external_types::collector::ErrorSet;
use check_external_types::config::Config;
use check_external_types::error::{ErrorLocation, UnstableFeature, ValidationError, VisitError};
use check_external_types::graph::{
    Constant, Crate, Enum, FnDecl, Function, FunctionPointer, GenericArg, GenericArgs, GenericBound,
    GenericParamDef, GenericParamDefKind, Generics, Id, Impl, Import, Item, ItemEnum, ItemSummary,
    Method, Module, Span, Static, Struct, Term, Trait, Type, TypeBinding, TypeBindingKind, Typedef,
    Union, Variant, Visibility, WherePredicate,
};
use check_external_types::model::VisibilityCheck;
use check_external_types::path::{ComponentType, Path};
use check_external_types::visitor::{Visitor, DEFAULT_DEPTH_LIMIT};

const WIDGET: &str = "5:10";
const GADGET: &str = "5:11";
const WIDGET_NAME: &str = "ExternalCrate::Widget";
const GADGET_NAME: &str = "ExternalCrate::Gadget";

fn id(text: &str) -> Id {
    Id(text.to_string())
}

fn ids(texts: &[&str]) -> Vec<Id> {
    texts.iter().map(|text| id(text)).collect()
}

fn item(key: &str, name: &str, visibility: Visibility, inner: ItemEnum) -> Item {
    Item { id: id(key), crate_id: 0, name: Some(name.to_string()), span: None, visibility, inner }
}

fn public(key: &str, name: &str, inner: ItemEnum) -> Item {
    item(key, name, Visibility::Public, inner)
}

fn private(key: &str, name: &str, inner: ItemEnum) -> Item {
    item(key, name, Visibility::Default, inner)
}

fn members(items: &[&str]) -> ItemEnum {
    ItemEnum::Module(Module { is_crate: false, items: ids(items) })
}

fn structure(fields: &[&str], impls: &[&str]) -> ItemEnum {
    ItemEnum::Struct(Struct { generics: no_generics(), fields: ids(fields), impls: ids(impls) })
}

fn method(key: &str, name: &str, output: Type) -> Item {
    let receiver = ("self".to_string(), Type::Generic("Self".to_string()));
    let decl = FnDecl { inputs: vec![receiver], output: Some(output) };
    public(key, name, ItemEnum::Method(Method { decl, generics: no_generics() }))
}

fn root(members: &[&str]) -> Item {
    public("0:0", "mylib", ItemEnum::Module(Module { is_crate: true, items: ids(members) }))
}

fn module(key: &str, name: &str, members: &[&str]) -> Item {
    public(key, name, self::members(members))
}

fn resolved(name: &str, key: &str) -> Type {
    Type::ResolvedPath { name: name.to_string(), id: id(key), args: None, param_names: vec![] }
}

fn widget() -> Type {
    resolved("Widget", WIDGET)
}

fn gadget() -> Type {
    resolved("Gadget", GADGET)
}

fn primitive(name: &str) -> Type {
    Type::Primitive(name.to_string())
}

fn no_generics() -> Generics {
    Generics { params: vec![], where_predicates: vec![] }
}

fn function(key: &str, name: &str, inputs: Vec<(&str, Type)>, output: Option<Type>) -> Item {
    function_with(key, name, inputs, output, no_generics())
}

fn function_with(
    key: &str,
    name: &str,
    inputs: Vec<(&str, Type)>,
    output: Option<Type>,
    generics: Generics,
) -> Item {
    let inputs = inputs.into_iter().map(|(name, typ)| (name.to_string(), typ)).collect();
    public(key, name, ItemEnum::Function(Function { decl: FnDecl { inputs, output }, generics }))
}

fn summary(key: &str, path: &[&str]) -> ItemSummary {
    ItemSummary { id: id(key), path: path.iter().map(|segment| segment.to_string()).collect() }
}

fn external_names() -> Vec<ItemSummary> {
    vec![
        summary(WIDGET, &["ExternalCrate", "Widget"]),
        summary(GADGET, &["ExternalCrate", "Gadget"]),
        summary("1:1", &["std", "string", "String"]),
    ]
}

fn graph(index: Vec<Item>) -> Crate {
    Crate { root: id("0:0"), index, paths: external_names() }
}

fn strict() -> Config {
    Config { allow_alloc: true, allow_core: true, allow_std: true, allowed_external_types: vec![] }
}

fn allowing(patterns: &[&str]) -> Config {
    Config {
        allow_alloc: true,
        allow_core: true,
        allow_std: true,
        allowed_external_types: patterns.iter().map(|pattern| pattern.to_string()).collect(),
    }
}

fn run(config: Config, package: Crate) -> Result<Vec<ValidationError>, VisitError> {
    Visitor::new(config, package)?.visit_all()
}

fn violation(name: &str, what: ErrorLocation, place: &str) -> ValidationError {
    ValidationError {
        external_type: name.to_string(),
        what,
        in_what_type: place.to_string(),
        location: None,
    }
}

fn argument(name: &str) -> ErrorLocation {
    ErrorLocation::ArgumentNamed(name.to_string())
}

fn widget_function() -> Crate {
    graph(vec![root(&["0:1"]), function("0:1", "f", vec![("x", widget())], None)])
}

#[test]
fn external_argument_is_reported() {
    let report = run(strict(), widget_function()).unwrap();
    assert_eq!(report, vec![violation("ExternalCrate::Widget", argument("x"), "mylib::f")]);
}

#[test]
fn allowed_external_argument_is_not_reported() {
    let report = run(allowing(&["ExternalCrate::Widget"]), widget_function()).unwrap();
    assert_eq!(report, vec![]);
}

#[test]
fn pattern_allows_a_whole_library() {
    let report = run(allowing(&["ExternalCrate::*"]), widget_function()).unwrap();
    assert_eq!(report, vec![]);
    let report = run(allowing(&["OtherCrate::*"]), widget_function()).unwrap();
    assert_eq!(report.len(), 1);
}

fn reexported_private_struct() -> Crate {
    graph(vec![
        root(&["0:1", "0:2"]),
        private("0:1", "inner", members(&["0:3"])),
        reexport("0:2", "Gadget", "0:3"),
        private("0:3", "Inner", structure(&["0:4"], &[])),
        public("0:4", "field", ItemEnum::StructField(gadget())),
    ])
}

#[test]
fn reexported_private_struct_is_examined() {
    let mut package = reexported_private_struct();
    package.paths.push(summary("0:3", &["mylib", "inner", "Inner"]));
    let report = run(strict(), package).unwrap();
    assert_eq!(
        report,
        vec![violation("ExternalCrate::Gadget", ErrorLocation::StructField, "mylib::Inner::field")]
    );
}

#[test]
fn private_struct_without_reexport_is_not_examined() {
    let mut package = reexported_private_struct();
    package.index[0] = root(&["0:1"]);
    assert_eq!(run(strict(), package).unwrap(), vec![]);
}

#[test]
fn private_function_is_not_examined() {
    let mut hidden = function("0:1", "f", vec![("x", widget())], Some(Type::Infer));
    hidden.visibility = Visibility::Default;
    let package = graph(vec![root(&["0:1"]), hidden]);
    assert_eq!(run(strict(), package).unwrap(), vec![]);
}

#[test]
fn crate_visible_function_is_not_examined() {
    for visibility in [Visibility::Crate, Visibility::Restricted] {
        let mut hidden = function("0:1", "f", vec![("x", widget())], None);
        hidden.visibility = visibility;
        let package = graph(vec![root(&["0:1"]), hidden]);
        assert_eq!(run(strict(), package).unwrap(), vec![]);
    }
}

#[test]
fn items_below_a_private_module_are_not_examined() {
    let package = graph(vec![
        root(&["0:1"]),
        private("0:1", "hidden", members(&["0:2", "0:9"])),
        function("0:2", "f", vec![("x", widget())], None),
    ]);
    assert_eq!(run(strict(), package).unwrap(), vec![]);
}

#[test]
fn variant_inherits_visibility_of_enum() {
    let package = graph(vec![
        root(&["0:1"]),
        public(
            "0:1",
            "Shape",
            ItemEnum::Enum(Enum {
                generics: no_generics(),
                variants: ids(&["0:2", "0:3", "0:5"]),
                impls: vec![],
            }),
        ),
        private("0:2", "Round", ItemEnum::Variant(Variant::Tuple(vec![widget()]))),
        private("0:3", "Square", ItemEnum::Variant(Variant::Struct(ids(&["0:4"])))),
        private("0:4", "side", ItemEnum::StructField(gadget())),
        private("0:5", "Empty", ItemEnum::Variant(Variant::Plain)),
    ]);
    let report = run(strict(), package).unwrap();
    assert_eq!(
        report,
        vec![
            violation(GADGET_NAME, ErrorLocation::StructField, "mylib::Shape::Square::side"),
            violation(WIDGET_NAME, ErrorLocation::EnumTupleEntry, "mylib::Shape::Round"),
        ]
    );
}

#[test]
fn trait_member_inherits_visibility_of_trait() {
    let mut method = method("0:2", "make", widget());
    method.visibility = Visibility::Default;
    let package = graph(vec![
        root(&["0:1"]),
        public(
            "0:1",
            "Maker",
            ItemEnum::Trait(Trait {
                items: ids(&["0:2"]),
                generics: no_generics(),
                bounds: vec![],
            }),
        ),
        method,
    ]);
    let report = run(strict(), package).unwrap();
    assert_eq!(report, vec![violation(WIDGET_NAME, ErrorLocation::ReturnValue, "mylib::Maker::make")]);
}

#[test]
fn unmarked_field_of_struct_is_private() {
    let package = graph(vec![
        root(&["0:1"]),
        public("0:1", "Holder", structure(&["0:2", "0:3"], &[])),
        private("0:2", "hidden", ItemEnum::StructField(widget())),
        public("0:3", "shown", ItemEnum::StructField(gadget())),
    ]);
    let report = run(strict(), package).unwrap();
    assert_eq!(
        report,
        vec![violation("ExternalCrate::Gadget", ErrorLocation::StructField, "mylib::Holder::shown")]
    );
}

fn reexport(key: &str, name: &str, target: &str) -> Item {
    public(key, name, ItemEnum::Import(Import { name: name.to_string(), id: Some(id(target)) }))
}

#[test]
fn reexport_of_external_type_is_reported() {
    let package = graph(vec![root(&["0:1"]), reexport("0:1", "Widget", WIDGET)]);
    let report = run(strict(), package).unwrap();
    assert_eq!(report, vec![violation(WIDGET_NAME, ErrorLocation::ReExport, "mylib::Widget")]);
}

#[test]
fn two_reexports_of_one_symbol_are_reported_twice() {
    let package = graph(vec![
        root(&["0:1", "0:2"]),
        reexport("0:1", "Widget", WIDGET),
        module("0:2", "prelude", &["0:3"]),
        reexport("0:3", "Widget", WIDGET),
    ]);
    let report = run(strict(), package).unwrap();
    assert_eq!(
        report,
        vec![
            violation("ExternalCrate::Widget", ErrorLocation::ReExport, "mylib::Widget"),
            violation("ExternalCrate::Widget", ErrorLocation::ReExport, "mylib::prelude::Widget"),
        ]
    );
    assert_ne!(report[0].in_what_type, report[1].in_what_type);
}

#[test]
fn import_without_target_is_passed_over() {
    let package = graph(vec![
        root(&["0:1"]),
        public(
            "0:1",
            "nothing",
            ItemEnum::Import(Import { name: "nothing".to_string(), id: None }),
        ),
    ]);
    assert_eq!(run(strict(), package).unwrap(), vec![]);
}

#[test]
fn same_reference_twice_is_reported_once() {
    let package = graph(vec![
        root(&["0:1"]),
        function("0:1", "f", vec![("x", Type::Tuple(vec![widget(), widget(), gadget()]))], None),
    ]);
    let report = run(strict(), package).unwrap();
    assert_eq!(
        report,
        vec![
            violation("ExternalCrate::Gadget", ErrorLocation::EnumTupleEntry, "mylib::f"),
            violation("ExternalCrate::Widget", ErrorLocation::EnumTupleEntry, "mylib::f"),
        ]
    );
}

fn implementation(key: &str, blanket: bool) -> Item {
    Item {
        id: id(key),
        crate_id: 0,
        name: None,
        span: None,
        visibility: Visibility::Default,
        inner: ItemEnum::Impl(Impl {
            generics: no_generics(),
            trait_: Some(widget()),
            items: ids(&["0:7"]),
            blanket,
        }),
    }
}

fn struct_with_impl(blanket: bool) -> Crate {
    graph(vec![
        root(&["0:1"]),
        public("0:1", "Holder", structure(&[], &["0:6"])),
        implementation("0:6", blanket),
        method("0:7", "make", gadget()),
    ])
}

#[test]
fn blanket_impl_contributes_nothing() {
    assert_eq!(run(strict(), struct_with_impl(true)).unwrap(), vec![]);
}

#[test]
fn impl_for_one_type_is_examined() {
    let report = run(strict(), struct_with_impl(false)).unwrap();
    assert_eq!(
        report,
        vec![
            violation("ExternalCrate::Gadget", ErrorLocation::ReturnValue, "mylib::Holder::make"),
            violation("ExternalCrate::Widget", ErrorLocation::ImplementedTrait, "mylib::Holder"),
        ]
    );
}

#[test]
fn impl_as_module_member_is_passed_over() {
    let mut block = implementation("0:6", false);
    block.visibility = Visibility::Public;
    let package = graph(vec![root(&["0:6"]), block]);
    assert_eq!(run(strict(), package).unwrap(), vec![]);
}

#[test]
fn traversal_is_deterministic() {
    let first = run(strict(), struct_with_impl(false));
    let second = run(strict(), struct_with_impl(false));
    assert_eq!(first, second);
    let first = run(strict(), graph(vec![]));
    let second = run(strict(), graph(vec![]));
    assert_eq!(first, second);
}

#[test]
fn order_of_index_does_not_change_report() {
    let mut package = struct_with_impl(false);
    package.index.reverse();
    let report = run(strict(), package).unwrap();
    assert_eq!(report, run(strict(), struct_with_impl(false)).unwrap());
}

#[test]
fn root_missing_from_index() {
    let package = Crate { root: id("0:0"), index: vec![], paths: vec![] };
    assert_eq!(run(strict(), package), Err(VisitError::RootNotFound));
}

#[test]
fn root_without_name() {
    let mut unnamed = root(&[]);
    unnamed.name = None;
    assert_eq!(run(strict(), graph(vec![unnamed])), Err(VisitError::RootUnnamed));
}

#[test]
fn no_root_module() {
    let package = graph(vec![module("0:0", "mylib", &[])]);
    assert_eq!(run(strict(), package), Err(VisitError::RootModuleMissing));
}

#[test]
fn two_root_modules() {
    let mut second = root(&[]);
    second.id = id("0:1");
    let package = graph(vec![root(&[]), second]);
    assert_eq!(run(strict(), package), Err(VisitError::RootModuleAmbiguous));
}

#[test]
fn member_missing_from_index() {
    let package = graph(vec![root(&["0:1"])]);
    assert_eq!(run(strict(), package), Err(VisitError::ItemNotFound(id("0:1"))));
}

#[test]
fn field_missing_from_index() {
    let package = graph(vec![
        root(&["0:1"]),
        public("0:1", "Holder", structure(&["0:2"], &[])),
    ]);
    assert_eq!(run(strict(), package), Err(VisitError::ItemNotFound(id("0:2"))));
}

#[test]
fn reexport_target_missing_from_index() {
    let package = graph(vec![root(&["0:1"]), reexport("0:1", "Gone", "0:99")]);
    assert_eq!(run(strict(), package), Err(VisitError::ItemNotFound(id("0:99"))));
}

#[test]
fn item_without_name() {
    let mut unnamed = function("0:1", "f", vec![], None);
    unnamed.name = None;
    let package = graph(vec![root(&["0:1"]), unnamed]);
    assert_eq!(run(strict(), package), Err(VisitError::UnnamedItem(id("0:1"))));
}

#[test]
fn impl_list_holds_another_item() {
    let package = graph(vec![
        root(&["0:1"]),
        public("0:1", "Holder", structure(&[], &["0:2"])),
        function("0:2", "f", vec![], None),
    ]);
    assert_eq!(run(strict(), package), Err(VisitError::NotAnImpl(id("0:2"))));
}

#[test]
fn unsupported_features_are_faults() {
    let cases = [
        (ItemEnum::ForeignType, UnstableFeature::ExternTypes),
        (ItemEnum::OpaqueTy, UnstableFeature::TypeAliasImplTrait),
        (ItemEnum::TraitAlias, UnstableFeature::TraitAlias),
    ];
    for (inner, feature) in cases {
        let package = graph(vec![root(&["0:1"]), public("0:1", "Odd", inner)]);
        assert_eq!(run(strict(), package), Err(VisitError::UnsupportedFeature(feature)));
    }
}

#[test]
fn private_unsupported_feature_is_no_fault() {
    let package = graph(vec![root(&["0:1"]), private("0:1", "Odd", ItemEnum::ForeignType)]);
    assert_eq!(run(strict(), package), Ok(vec![]));
}

#[test]
fn inferred_type_is_a_fault() {
    let package = graph(vec![root(&["0:1"]), function("0:1", "f", vec![("x", Type::Infer)], None)]);
    assert_eq!(run(strict(), package), Err(VisitError::InferredType));
}

#[test]
fn unnamed_external_reference_is_a_fault() {
    let package = graph(vec![
        root(&["0:1"]),
        function("0:1", "f", vec![("x", resolved("Unknown", "7:1"))], None),
    ]);
    assert_eq!(run(strict(), package), Err(VisitError::UnresolvedReference(id("7:1"))));
}

#[test]
fn unnamed_reference_of_own_library_is_accepted() {
    let package = graph(vec![
        root(&["0:1"]),
        function("0:1", "f", vec![("x", resolved("Projection", "0:77"))], None),
    ]);
    assert_eq!(run(strict(), package), Ok(vec![]));
}

#[test]
fn own_library_is_told_by_its_number() {
    // The root has number 1 here, so that "10:5" is not of the library
    // though it starts with the same digit.
    let mut root_item = root(&["1:1"]);
    root_item.id = id("1:0");
    root_item.crate_id = 1;
    let mut f = function("1:1", "f", vec![("x", resolved("Other", "10:5"))], None);
    f.crate_id = 1;
    let package = Crate { root: id("1:0"), index: vec![root_item, f], paths: vec![] };
    assert_eq!(run(strict(), package), Err(VisitError::UnresolvedReference(id("10:5"))));
}

#[test]
fn fault_ends_the_traversal() {
    let package = graph(vec![
        root(&["0:1", "0:2"]),
        function("0:1", "f", vec![("x", widget())], None),
        public("0:2", "Odd", ItemEnum::TraitAlias),
    ]);
    let fault = VisitError::UnsupportedFeature(UnstableFeature::TraitAlias);
    assert_eq!(run(strict(), package), Err(fault));
}

fn nested_modules(levels: usize) -> Crate {
    let mut index = vec![root(&["0:1"])];
    for level in 1..=levels {
        let key = format!("0:{}", level);
        let name = format!("m{}", level);
        let next = format!("0:{}", level + 1);
        index.push(module(&key, &name, &[&next]));
    }
    let key = format!("0:{}", levels + 1);
    index.push(function(&key, "f", vec![("x", widget())], None));
    graph(index)
}

#[test]
fn depth_limit_is_a_fault() {
    let visitor = Visitor::new(strict(), nested_modules(3)).unwrap().with_depth_limit(3);
    assert_eq!(visitor.visit_all(), Err(VisitError::DepthLimitExceeded));
    let visitor = Visitor::new(strict(), nested_modules(3)).unwrap().with_depth_limit(4);
    assert_eq!(
        visitor.visit_all(),
        Ok(vec![violation("ExternalCrate::Widget", argument("x"), "mylib::m1::m2::m3::f")])
    );
}

#[test]
fn depth_limit_zero_allows_an_empty_library() {
    let visitor = Visitor::new(strict(), graph(vec![root(&[])])).unwrap().with_depth_limit(0);
    assert_eq!(visitor.visit_all(), Ok(vec![]));
    let visitor = Visitor::new(strict(), widget_function()).unwrap().with_depth_limit(0);
    assert_eq!(visitor.visit_all(), Err(VisitError::DepthLimitExceeded));
}

#[test]
fn default_depth_limit_is_deep_enough() {
    assert_eq!(DEFAULT_DEPTH_LIMIT, 256);
    let report = run(strict(), nested_modules(200)).unwrap();
    assert_eq!(report.len(), 1);
    assert_eq!(run(strict(), nested_modules(256)), Err(VisitError::DepthLimitExceeded));
}

#[test]
fn cyclic_reexport_ends_in_a_fault() {
    // A module that re-exports itself: the walk would never end.
    let package = graph(vec![
        root(&["0:1"]),
        module("0:1", "own", &["0:2"]),
        reexport("0:2", "again", "0:1"),
    ]);
    assert_eq!(run(strict(), package), Err(VisitError::DepthLimitExceeded));
}

#[test]
fn receiver_is_passed_over() {
    let package = graph(vec![
        root(&["0:1"]),
        function("0:1", "f", vec![("self", widget()), ("other", gadget())], None),
    ]);
    let report = run(strict(), package).unwrap();
    assert_eq!(report, vec![violation("ExternalCrate::Gadget", argument("other"), "mylib::f")]);
}

#[test]
fn later_input_named_like_receiver_is_examined() {
    let package = graph(vec![
        root(&["0:1"]),
        function("0:1", "f", vec![("first", primitive("u8")), ("self", widget())], None),
    ]);
    let report = run(strict(), package).unwrap();
    assert_eq!(report, vec![violation("ExternalCrate::Widget", argument("self"), "mylib::f")]);
}

#[test]
fn names_of_std_follow_the_policy() {
    let uses_string = || {
        graph(vec![root(&["0:1"]), function("0:1", "f", vec![], Some(resolved("String", "1:1")))])
    };
    assert_eq!(run(strict(), uses_string()).unwrap(), vec![]);
    let mut config = strict();
    config.allow_std = false;
    assert_eq!(
        run(config, uses_string()).unwrap(),
        vec![violation("std::string::String", ErrorLocation::ReturnValue, "mylib::f")]
    );
}

#[test]
fn names_of_own_library_are_allowed() {
    let mut package = graph(vec![
        root(&["0:1", "0:2"]),
        function("0:1", "f", vec![("x", resolved("Own", "0:2"))], None),
        public("0:2", "Own", structure(&[], &[])),
    ]);
    package.paths.push(summary("0:2", &["mylib", "Own"]));
    assert_eq!(run(strict(), package).unwrap(), vec![]);
}

#[test]
fn members_of_other_packages_are_passed_over_in_modules() {
    let mut foreign = function("0:2", "g", vec![("x", widget())], None);
    foreign.crate_id = 5;
    let package = graph(vec![root(&["0:1"]), module("0:1", "m", &["0:2"]), foreign]);
    assert_eq!(run(strict(), package).unwrap(), vec![]);
}

#[test]
fn members_of_other_packages_are_examined_in_the_root() {
    let mut foreign = function("0:2", "g", vec![("x", widget())], None);
    foreign.crate_id = 5;
    let package = graph(vec![root(&["0:2"]), foreign]);
    assert_eq!(
        run(strict(), package).unwrap(),
        vec![violation("ExternalCrate::Widget", argument("x"), "mylib::g")]
    );
}

#[test]
fn first_item_of_an_identity_is_the_one_found() {
    let package = graph(vec![
        root(&["0:1"]),
        function("0:1", "first", vec![("x", widget())], None),
        function("0:1", "second", vec![("x", gadget())], None),
    ]);
    assert_eq!(
        run(strict(), package).unwrap(),
        vec![violation("ExternalCrate::Widget", argument("x"), "mylib::first")]
    );
}

fn trait_bound(trait_: Type) -> GenericBound {
    GenericBound::TraitBound { trait_, generic_params: vec![] }
}

#[test]
fn composite_types_are_walked() {
    let boxed = |inner: Type| Type::Slice(Box::new(inner));
    let pointer = Type::FunctionPointer(Box::new(FunctionPointer {
        decl: FnDecl { inputs: vec![("a".to_string(), widget())], output: Some(gadget()) },
        generic_params: vec![],
    }));
    let package = graph(vec![
        root(&["0:1", "0:2", "0:3", "0:4", "0:5", "0:6", "0:7"]),
        function("0:1", "slice", vec![("x", boxed(widget()))], None),
        function("0:2", "array", vec![], Some(Type::Array { type_: Box::new(widget()) })),
        function("0:3", "raw", vec![("x", Type::RawPointer { type_: Box::new(widget()) })], None),
        function(
            "0:4",
            "borrowed",
            vec![("x", Type::BorrowedRef { type_: Box::new(widget()) })],
            None,
        ),
        function("0:5", "pointer", vec![("x", pointer)], None),
        function(
            "0:6",
            "qualified",
            vec![(
                "x",
                Type::QualifiedPath {
                    name: "Out".to_string(),
                    self_type: Box::new(widget()),
                    trait_: Box::new(gadget()),
                },
            )],
            None,
        ),
        function(
            "0:7",
            "opaque",
            vec![],
            Some(Type::ImplTrait(vec![trait_bound(widget()), GenericBound::Outlives])),
        ),
    ]);
    let report = run(strict(), package).unwrap();
    assert_eq!(
        report,
        vec![
            violation(GADGET_NAME, ErrorLocation::QualifiedSelfTypeAsTrait, "mylib::qualified"),
            violation("ExternalCrate::Gadget", ErrorLocation::ReturnValue, "mylib::pointer"),
            violation("ExternalCrate::Widget", argument("a"), "mylib::pointer"),
            violation("ExternalCrate::Widget", argument("x"), "mylib::borrowed"),
            violation("ExternalCrate::Widget", argument("x"), "mylib::raw"),
            violation("ExternalCrate::Widget", argument("x"), "mylib::slice"),
            violation(WIDGET_NAME, ErrorLocation::QualifiedSelfType, "mylib::qualified"),
            violation("ExternalCrate::Widget", ErrorLocation::ReturnValue, "mylib::array"),
            violation("ExternalCrate::Widget", ErrorLocation::ReturnValue, "mylib::opaque"),
        ]
    );
}

fn binding(name: &str, binding: TypeBindingKind) -> TypeBinding {
    TypeBinding { name: name.to_string(), binding }
}

#[test]
fn generic_arguments_are_walked() {
    let vec_of = |args: GenericArgs| Type::ResolvedPath {
        name: "Own".to_string(),
        id: id("0:50"),
        args: Some(Box::new(args)),
        param_names: vec![trait_bound(resolved("Marker", "5:12"))],
    };
    let mut package = graph(vec![
        root(&["0:1", "0:2"]),
        function(
            "0:1",
            "angle",
            vec![(
                "x",
                vec_of(GenericArgs::AngleBracketed {
                    args: vec![
                        GenericArg::Lifetime,
                        GenericArg::Type(widget()),
                        GenericArg::Const,
                        GenericArg::Infer,
                    ],
                    bindings: vec![
                        binding("A", TypeBindingKind::Equality(Term::Type(gadget()))),
                        binding("B", TypeBindingKind::Equality(Term::Constant)),
                        binding("C", TypeBindingKind::Constraint(vec![trait_bound(widget())])),
                    ],
                }),
            )],
            None,
        ),
        function(
            "0:2",
            "round",
            vec![(
                "x",
                vec_of(GenericArgs::Parenthesized { inputs: vec![widget()], output: Some(gadget()) }),
            )],
            None,
        ),
    ]);
    package.paths.push(summary("5:12", &["ExternalCrate", "Marker"]));
    let report = run(strict(), package).unwrap();
    assert_eq!(
        report,
        vec![
            violation("ExternalCrate::Gadget", ErrorLocation::ClosureOutput, "mylib::round"),
            violation(GADGET_NAME, ErrorLocation::GenericDefaultBinding, "mylib::angle"),
            violation("ExternalCrate::Marker", ErrorLocation::TraitBound, "mylib::angle"),
            violation("ExternalCrate::Marker", ErrorLocation::TraitBound, "mylib::round"),
            violation("ExternalCrate::Widget", ErrorLocation::ClosureInput, "mylib::round"),
            violation("ExternalCrate::Widget", ErrorLocation::GenericArg, "mylib::angle"),
            violation("ExternalCrate::Widget", ErrorLocation::TraitBound, "mylib::angle"),
        ]
    );
}

#[test]
fn generics_of_a_declaration_are_walked() {
    let generics = Generics {
        params: vec![
            GenericParamDef { name: "'a".to_string(), kind: GenericParamDefKind::Lifetime },
            GenericParamDef {
                name: "T".to_string(),
                kind: GenericParamDefKind::Type {
                    bounds: vec![trait_bound(widget())],
                    default: Some(gadget()),
                },
            },
            GenericParamDef {
                name: "N".to_string(),
                kind: GenericParamDefKind::Const { type_: widget() },
            },
        ],
        where_predicates: vec![
            WherePredicate::BoundPredicate {
                type_: gadget(),
                bounds: vec![trait_bound(resolved("Marker", "5:12"))],
                generic_params: vec![],
            },
            WherePredicate::RegionPredicate { bounds: vec![GenericBound::Outlives] },
            WherePredicate::EqPredicate { lhs: widget() },
        ],
    };
    let f = function_with("0:1", "f", vec![], None, generics);
    let mut package = graph(vec![root(&["0:1"]), f]);
    package.paths.push(summary("5:12", &["ExternalCrate", "Marker"]));
    let report = run(strict(), package).unwrap();
    assert_eq!(
        report,
        vec![
            violation("ExternalCrate::Gadget", ErrorLocation::GenericDefaultBinding, "mylib::f"),
            violation("ExternalCrate::Gadget", ErrorLocation::WhereBound, "mylib::f"),
            violation("ExternalCrate::Marker", ErrorLocation::TraitBound, "mylib::f"),
            violation("ExternalCrate::Widget", ErrorLocation::ConstGeneric, "mylib::f"),
            violation("ExternalCrate::Widget", ErrorLocation::TraitBound, "mylib::f"),
            violation("ExternalCrate::Widget", ErrorLocation::WhereBound, "mylib::f"),
        ]
    );
}

#[test]
fn other_declarations_are_walked() {
    let package = graph(vec![
        root(&["0:1", "0:2", "0:3", "0:4", "0:5"]),
        public("0:1", "LIMIT", ItemEnum::Constant(Constant { type_: widget() })),
        public("0:2", "STATE", ItemEnum::Static(Static { type_: widget() })),
        public(
            "0:3",
            "Alias",
            ItemEnum::Typedef(Typedef { type_: widget(), generics: no_generics() }),
        ),
        public(
            "0:4",
            "Either",
            ItemEnum::Union(Union {
                generics: no_generics(),
                fields: ids(&["0:6"]),
                impls: vec![],
            }),
        ),
        public(
            "0:5",
            "Maker",
            ItemEnum::Trait(Trait {
                items: ids(&["0:7", "0:8"]),
                generics: no_generics(),
                bounds: vec![trait_bound(gadget())],
            }),
        ),
        public("0:6", "left", ItemEnum::StructField(widget())),
        private("0:7", "SIZE", ItemEnum::AssocConst { type_: widget() }),
        private(
            "0:8",
            "Out",
            ItemEnum::AssocType {
                generics: no_generics(),
                bounds: vec![trait_bound(gadget())],
                default: Some(widget()),
            },
        ),
    ]);
    let report = run(strict(), package).unwrap();
    assert_eq!(
        report,
        vec![
            violation("ExternalCrate::Gadget", ErrorLocation::TraitBound, "mylib::Maker"),
            violation("ExternalCrate::Gadget", ErrorLocation::TraitBound, "mylib::Maker::Out"),
            violation("ExternalCrate::Widget", ErrorLocation::AssocType, "mylib::Maker::Out"),
            violation("ExternalCrate::Widget", ErrorLocation::Constant, "mylib::LIMIT"),
            violation("ExternalCrate::Widget", ErrorLocation::Static, "mylib::STATE"),
            violation("ExternalCrate::Widget", ErrorLocation::StructField, "mylib::Either::left"),
            violation("ExternalCrate::Widget", ErrorLocation::StructField, "mylib::Maker::SIZE"),
            violation("ExternalCrate::Widget", ErrorLocation::TypeDef, "mylib::Alias"),
        ]
    );
}

#[test]
fn items_without_a_body_are_passed_over() {
    let package = graph(vec![
        root(&["0:1", "0:2", "0:3", "0:4"]),
        public("0:1", "other", ItemEnum::ExternCrate),
        public("0:2", "make", ItemEnum::Macro),
        public("0:3", "derive", ItemEnum::ProcMacro),
        public("0:4", "u8", ItemEnum::PrimitiveType),
    ]);
    assert_eq!(run(strict(), package).unwrap(), vec![]);
}

#[test]
fn violation_carries_the_location_of_the_declaration() {
    let place = Span { filename: "src/lib.rs".to_string(), begin: (3, 1), end: (3, 40) };
    let mut f = function("0:1", "f", vec![("x", widget())], None);
    f.span = Some(place.clone());
    let report = run(strict(), graph(vec![root(&["0:1"]), f])).unwrap();
    assert_eq!(report.len(), 1);
    assert_eq!(report[0].location, Some(place));
    assert_eq!(report[0].location().map(|span| span.begin), Some((3, 1)));
    assert_eq!(report[0].external_type(), "ExternalCrate::Widget");
}

#[test]
fn unnamed_module_is_a_fault() {
    let mut unnamed = module("0:1", "m", &["0:2"]);
    unnamed.name = None;
    let f = function("0:2", "f", vec![("x", widget())], None);
    let package = graph(vec![root(&["0:1"]), unnamed, f]);
    assert_eq!(run(strict(), package), Err(VisitError::UnnamedItem(id("0:1"))));
}

#[test]
fn root_container_adds_no_path_component() {
    let visitor = visitor_for(vec![root(&[]), function("0:2", "f", vec![("x", widget())], None)]);
    let mut container = root(&["0:2"]);
    container.name = None;
    let mut errors = ErrorSet::new();
    let check = VisibilityCheck::Default;
    assert_eq!(visitor.visit_item(&crate_path(), &container, check, 2, &mut errors), Ok(()));
    assert_eq!(
        errors.into_sorted_vec(),
        vec![violation("ExternalCrate::Widget", argument("x"), "mylib::f")]
    );
}

fn visitor_for(index: Vec<Item>) -> Visitor {
    Visitor::new(strict(), graph(index)).unwrap()
}

fn crate_path() -> Path {
    Path::new("mylib")
}

#[test]
fn reference_is_checked_against_the_policy() {
    let visitor = visitor_for(vec![root(&[])]);
    let mut errors = ErrorSet::new();
    let path = crate_path();
    let what = ErrorLocation::ReturnValue;
    assert_eq!(visitor.check_external(&path, &what, &id(WIDGET), &mut errors), Ok(()));
    assert_eq!(visitor.check_external(&path, &what, &id("1:1"), &mut errors), Ok(()));
    assert_eq!(visitor.check_external(&path, &what, &id("0:5"), &mut errors), Ok(()));
    assert_eq!(
        visitor.check_external(&path, &what, &id("9:5"), &mut errors),
        Err(VisitError::UnresolvedReference(id("9:5")))
    );
    assert_eq!(
        errors.into_sorted_vec(),
        vec![violation("ExternalCrate::Widget", ErrorLocation::ReturnValue, "mylib")]
    );
}

#[test]
fn lookups_of_the_visitor() {
    let visitor = visitor_for(vec![root(&["0:1"]), function("0:1", "f", vec![], None)]);
    let name_of = |key: &str| visitor.item(&id(key)).map(|item| item.name.clone());
    assert_eq!(name_of("0:1"), Ok(Some("f".to_string())));
    assert_eq!(name_of("0:2"), Err(VisitError::ItemNotFound(id("0:2"))));
    assert_eq!(visitor.canonical_name(&id(WIDGET)), Some("ExternalCrate::Widget".to_string()));
    assert_eq!(visitor.canonical_name(&id("0:1")), None);
    assert!(visitor.in_root_crate(&id("0:1")));
    assert!(visitor.in_root_crate(&id("0:")));
    assert!(!visitor.in_root_crate(&id("00:1")));
    assert!(!visitor.in_root_crate(&id("1:0")));
    assert!(!visitor.in_root_crate(&id("0")));
    assert_eq!(visitor.root_module(), Ok(&ids(&["0:1"])));
}

#[test]
fn private_item_is_examined_when_assumed_public() {
    let mut hidden = function("0:1", "f", vec![("x", widget())], None);
    hidden.visibility = Visibility::Default;
    let visitor = visitor_for(vec![root(&[])]);
    let path = crate_path();
    let mut errors = ErrorSet::new();
    let check = VisibilityCheck::Default;
    assert_eq!(visitor.visit_item(&path, &hidden, check, 1, &mut errors), Ok(()));
    assert_eq!(errors.len(), 0);
    let check = VisibilityCheck::AssumePublic;
    assert_eq!(visitor.visit_item(&path, &hidden, check, 1, &mut errors), Ok(()));
    assert_eq!(
        errors.into_sorted_vec(),
        vec![violation("ExternalCrate::Widget", argument("x"), "mylib::f")]
    );
}

#[test]
fn violations_found_before_a_fault_are_kept() {
    let visitor = visitor_for(vec![root(&[])]);
    let path = crate_path();
    let mut errors = ErrorSet::new();
    let types = vec![widget(), Type::Infer, gadget()];
    assert_eq!(
        visitor.visit_types(&path, &ErrorLocation::GenericArg, &types, &mut errors),
        Err(VisitError::InferredType)
    );
    assert_eq!(
        errors.into_sorted_vec(),
        vec![violation("ExternalCrate::Widget", ErrorLocation::GenericArg, "mylib")]
    );
}

#[test]
fn path_is_extended_by_a_named_item() {
    let mut f = function("0:1", "f", vec![], None);
    let inner =
        Visitor::enter(&crate_path(), ComponentType::Function, &f).unwrap();
    assert_eq!(inner.to_string(), "mylib::f");
    assert_eq!(inner.last_type(), Some(ComponentType::Function));
    f.name = None;
    assert_eq!(
        Visitor::enter(&crate_path(), ComponentType::Function, &f),
        Err(VisitError::UnnamedItem(id("0:1")))
    );
    assert_eq!(
        Visitor::component_type(&f.inner),
        Some(ComponentType::Function)
    );
    assert_eq!(Visitor::component_type(&ItemEnum::Macro), None);
    assert_eq!(Visitor::component_type(&root(&[]).inner), None);
}

#[test]
fn policy_that_allows_everything_reports_nothing() {
    for package in [widget_function(), struct_with_impl(false), reexported_private_struct()] {
        assert_eq!(run(allowing(&["*"]), package), Ok(vec![]));
    }
}

#[test]
fn every_reported_type_is_one_the_policy_does_not_allow() {
    let config = || allowing(&["ExternalCrate::G*"]);
    for package in [widget_function(), struct_with_impl(false), reexported_private_struct()] {
        let names: Vec<String> =
            package.paths.iter().map(|summary| summary.path.join("::")).collect();
        for found in run(config(), package).unwrap() {
            assert!(!config().allows_type("mylib", found.external_type()));
            assert!(names.iter().any(|name| name == found.external_type()));
        }
    }
    let report = run(config(), struct_with_impl(false)).unwrap();
    assert_eq!(
        report,
        vec![violation("ExternalCrate::Widget", ErrorLocation::ImplementedTrait, "mylib::Holder")]
    );
}

#[test]
fn marker_of_a_variant_does_not_hide_it() {
    for marker in [Visibility::Crate, Visibility::Restricted, Visibility::Default] {
        let mut round = private("0:2", "Round", ItemEnum::Variant(Variant::Tuple(vec![widget()])));
        round.visibility = marker;
        let mut square = private("0:3", "Square", ItemEnum::Variant(Variant::Struct(ids(&["0:4"]))));
        square.visibility = marker;
        let mut side = private("0:4", "side", ItemEnum::StructField(gadget()));
        side.visibility = marker;
        let shape = ItemEnum::Enum(Enum {
            generics: no_generics(),
            variants: ids(&["0:2", "0:3"]),
            impls: vec![],
        });
        let package = graph(vec![root(&["0:1"]), public("0:1", "Shape", shape), round, square, side]);
        assert_eq!(
            run(strict(), package).unwrap(),
            vec![
                violation(GADGET_NAME, ErrorLocation::StructField, "mylib::Shape::Square::side"),
                violation(WIDGET_NAME, ErrorLocation::EnumTupleEntry, "mylib::Shape::Round"),
            ]
        );
    }
}

#[test]
fn marker_of_a_trait_member_does_not_hide_it() {
    for marker in [Visibility::Crate, Visibility::Restricted] {
        let mut member = method("0:2", "make", widget());
        member.visibility = marker;
        let maker = ItemEnum::Trait(Trait {
            items: ids(&["0:2"]),
            generics: no_generics(),
            bounds: vec![],
        });
        let package = graph(vec![root(&["0:1"]), public("0:1", "Maker", maker), member]);
        assert_eq!(
            run(strict(), package).unwrap(),
            vec![violation(WIDGET_NAME, ErrorLocation::ReturnValue, "mylib::Maker::make")]
        );
    }
}

#[test]
fn order_of_items_and_names_does_not_change_the_result() {
    let builders: [fn() -> Crate; 4] = [
        widget_function,
        reexported_private_struct,
        || struct_with_impl(false),
        || graph(vec![root(&["0:1", "0:2"]), public("0:2", "Odd", ItemEnum::TraitAlias)]),
    ];
    for build in builders {
        let expected = run(strict(), build());
        let items = build().index.len();
        let names = build().paths.len();
        for turn in 0..items.max(names) {
            let mut package = build();
            package.index.rotate_left(turn % items);
            package.paths.rotate_left(turn % names);
            assert_eq!(run(strict(), package), expected);
            let mut package = build();
            package.index.reverse();
            package.index.rotate_left(turn % items);
            package.paths.reverse();
            assert_eq!(run(strict(), package), expected);
        }
    }
}
