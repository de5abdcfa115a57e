use check_external_types::collector::ErrorSet;
use check_external_types::config::{matches_glob, Config};
use check_external_types::error::{
    compare_errors, compare_locations, compare_spans, compare_uses, ErrorLocation, ValidationError,
};
use check_external_types::graph::{Id, Item, ItemEnum, ItemSummary, Span, Type, Variant, Visibility};
use check_external_types::path::{ComponentType, Path};
use check_external_types::table::Table;
use check_external_types::text::{
    compare_bytes, compare_text, decimal_string, join_segments, starts_with, to_chars, Order,
};
use check_external_types::visitor::Visitor;

fn chars(text: &str) -> Vec<char> {
    text.chars().collect()
}

fn glob(pattern: &str, text: &str) -> bool {
    matches_glob(&chars(pattern), &chars(text))
}

fn violation(
    name: &str,
    what: ErrorLocation,
    place: &str,
    location: Option<Span>,
) -> ValidationError {
    ValidationError {
        external_type: name.to_string(),
        what,
        in_what_type: place.to_string(),
        location,
    }
}

fn span(file: &str, begin: (usize, usize), end: (usize, usize)) -> Span {
    Span { filename: file.to_string(), begin, end }
}

#[test]
fn text_order_is_the_order_of_str() {
    let samples = ["", "a", "ab", "b", "B", "a::b", "ä", "z", "日本", "\u{10FFFF}", "a\u{0}"];
    for a in samples {
        for b in samples {
            let expected = match a.cmp(b) {
                std::cmp::Ordering::Less => Order::Less,
                std::cmp::Ordering::Equal => Order::Equal,
                std::cmp::Ordering::Greater => Order::Greater,
            };
            assert_eq!(compare_text(a, b), expected, "{:?} against {:?}", a, b);
        }
    }
}

#[test]
fn bytes_are_compared_lexicographically() {
    assert_eq!(compare_bytes(&[], &[]), Order::Equal);
    assert_eq!(compare_bytes(&[], &[0]), Order::Less);
    assert_eq!(compare_bytes(&[1, 2], &[1, 2, 0]), Order::Less);
    assert_eq!(compare_bytes(&[1, 3], &[1, 2, 9]), Order::Greater);
    assert_eq!(compare_bytes(&[255], &[1, 1]), Order::Greater);
    assert_eq!(compare_bytes(&[7, 8, 9], &[7, 8, 9]), Order::Equal);
}

#[test]
fn segments_are_joined_with_double_colons() {
    let join = |parts: &[&str]| join_segments(&parts.iter().map(|part| part.to_string()).collect());
    assert_eq!(join(&[]), "");
    assert_eq!(join(&["std"]), "std");
    assert_eq!(join(&["std", "string", "String"]), "std::string::String");
    assert_eq!(join(&["", ""]), "::");
}

#[test]
fn numbers_are_rendered_in_decimal() {
    assert_eq!(decimal_string(0), "0");
    assert_eq!(decimal_string(7), "7");
    assert_eq!(decimal_string(10), "10");
    assert_eq!(decimal_string(1234567890), "1234567890");
    assert_eq!(decimal_string(u32::MAX), "4294967295");
}

#[test]
fn prefixes_are_recognised() {
    assert!(starts_with("0:12", "0:"));
    assert!(starts_with("0:", "0:"));
    assert!(starts_with("anything", ""));
    assert!(!starts_with("10:12", "0:"));
    assert!(!starts_with("0", "0:"));
    assert!(!starts_with("", "0:"));
    assert!(starts_with("日本語", "日本"));
}

#[test]
fn characters_of_a_text() {
    assert_eq!(to_chars(""), Vec::<char>::new());
    assert_eq!(to_chars("a:ä"), vec!['a', ':', 'ä']);
}

#[test]
fn glob_patterns() {
    assert!(glob("", ""));
    assert!(!glob("", "a"));
    assert!(glob("*", ""));
    assert!(glob("*", "anything::at::all"));
    assert!(glob("a::B", "a::B"));
    assert!(!glob("a::B", "a::Bc"));
    assert!(!glob("a::Bc", "a::B"));
    assert!(glob("a::*", "a::B"));
    assert!(glob("a::*", "a::"));
    assert!(!glob("a::*", "ab::B"));
    assert!(glob("*::Error", "std::io::Error"));
    assert!(!glob("*::Error", "std::io::ErrorKind"));
    assert!(glob("a*b*c", "a-b-b-c"));
    assert!(!glob("a*b*c", "a-c-b"));
    assert!(glob("?", "x"));
    assert!(!glob("?", ""));
    assert!(!glob("?", "xy"));
    assert!(glob("a?c", "abc"));
    assert!(glob("**", "x"));
    assert!(glob("*?", "x"));
    assert!(!glob("*?", ""));
}

#[test]
fn policy_rules() {
    let config = Config {
        allow_alloc: false,
        allow_core: true,
        allow_std: false,
        allowed_external_types: vec!["bytes::*".to_string(), "http::Uri".to_string()],
    };
    assert!(config.allows_type("mylib", "mylib::Thing"));
    assert!(config.allows_type("mylib", "mylib"));
    assert!(!config.allows_type("mylib", "mylib2::Thing"));
    assert!(!config.allows_type("mylib", "alloc::vec::Vec"));
    assert!(config.allows_type("mylib", "core::fmt::Debug"));
    assert!(!config.allows_type("mylib", "std::string::String"));
    assert!(config.allows_type("mylib", "bytes::Bytes"));
    assert!(config.allows_type("mylib", "http::Uri"));
    assert!(!config.allows_type("mylib", "http::Method"));
    assert!(!config.allows_type("mylib", ""));
    assert!(config.allows_type("", "::odd"));
    assert!(config.allows_type("std", "std::string::String"));
}

#[test]
fn pattern_does_not_override_a_rule_for_std() {
    let config = Config {
        allow_alloc: false,
        allow_core: false,
        allow_std: false,
        allowed_external_types: vec!["*".to_string()],
    };
    assert!(!config.allows_type("mylib", "std::string::String"));
    assert!(!config.allows_type("mylib", "core::fmt::Debug"));
    assert!(!config.allows_type("mylib", "alloc::vec::Vec"));
    assert!(config.allows_type("mylib", "bytes::Bytes"));
}

#[test]
fn default_policy() {
    let config = Config::default();
    assert!(config.allow_alloc && config.allow_core && config.allow_std);
    assert!(config.allowed_external_types.is_empty());
    assert!(config.allows_type("mylib", "std::vec::Vec"));
    assert!(!config.allows_type("mylib", "bytes::Bytes"));
}

#[test]
fn inserting_twice_keeps_one() {
    let make = || violation("a::B", ErrorLocation::ReturnValue, "mylib::f", None);
    let mut set = ErrorSet::new();
    assert_eq!(set.len(), 0);
    assert!(!set.contains(&make()));
    assert!(set.insert(make()));
    assert!(!set.insert(make()));
    assert!(set.contains(&make()));
    assert_eq!(set.len(), 1);
    assert_eq!(set.into_sorted_vec(), vec![make()]);
}

#[test]
fn set_hands_out_in_order() {
    let here = span("src/a.rs", (1, 1), (1, 9));
    let entries = vec![
        violation("b::B", ErrorLocation::ReturnValue, "mylib::f", None),
        violation("a::A", ErrorLocation::ReturnValue, "mylib::g", Some(here.clone())),
        violation("a::A", ErrorLocation::ReturnValue, "mylib::g", None),
        violation("a::A", ErrorLocation::ArgumentNamed("y".to_string()), "mylib::f", None),
        violation("a::A", ErrorLocation::ArgumentNamed("x".to_string()), "mylib::f", None),
        violation("a::A", ErrorLocation::AssocType, "mylib::z", None),
        violation("a::A", ErrorLocation::ReturnValue, "mylib::f", None),
    ];
    let mut set = ErrorSet::new();
    for entry in entries {
        assert!(set.insert(entry));
    }
    assert_eq!(set.len(), 7);
    let report = set.into_sorted_vec();
    assert_eq!(
        report,
        vec![
            violation("a::A", ErrorLocation::AssocType, "mylib::z", None),
            violation("a::A", ErrorLocation::ArgumentNamed("x".to_string()), "mylib::f", None),
            violation("a::A", ErrorLocation::ArgumentNamed("y".to_string()), "mylib::f", None),
            violation("a::A", ErrorLocation::ReturnValue, "mylib::f", None),
            violation("a::A", ErrorLocation::ReturnValue, "mylib::g", None),
            violation("a::A", ErrorLocation::ReturnValue, "mylib::g", Some(here)),
            violation("b::B", ErrorLocation::ReturnValue, "mylib::f", None),
        ]
    );
    for pair in report.windows(2) {
        assert_eq!(compare_errors(&pair[0], &pair[1]), Order::Less);
        assert_eq!(compare_errors(&pair[1], &pair[0]), Order::Greater);
    }
}

#[test]
fn spans_are_ordered_by_file_then_position() {
    let base = span("b.rs", (2, 2), (3, 3));
    assert_eq!(compare_spans(&base, &base), Order::Equal);
    assert_eq!(compare_spans(&span("a.rs", (9, 9), (9, 9)), &base), Order::Less);
    assert_eq!(compare_spans(&span("b.rs", (1, 9), (9, 9)), &base), Order::Less);
    assert_eq!(compare_spans(&span("b.rs", (2, 1), (9, 9)), &base), Order::Less);
    assert_eq!(compare_spans(&span("b.rs", (2, 2), (3, 2)), &base), Order::Less);
    assert_eq!(compare_spans(&span("b.rs", (2, 2), (2, 9)), &base), Order::Less);
    assert_eq!(compare_spans(&span("b.rs", (2, 2), (3, 4)), &base), Order::Greater);
    assert_eq!(compare_locations(None, None), Order::Equal);
    assert_eq!(compare_locations(None, Some(&base)), Order::Less);
    assert_eq!(compare_locations(Some(&base), None), Order::Greater);
    assert_eq!(compare_locations(Some(&base), Some(&base)), Order::Equal);
}

#[test]
fn uses_are_ordered_by_rank_then_argument() {
    let x = ErrorLocation::ArgumentNamed("x".to_string());
    let y = ErrorLocation::ArgumentNamed("y".to_string());
    assert_eq!(ErrorLocation::AssocType.rank(), 0);
    assert_eq!(x.rank(), 1);
    assert_eq!(ErrorLocation::ReExport.rank(), 12);
    assert_eq!(ErrorLocation::WhereBound.rank(), 18);
    assert_eq!(compare_uses(&x, &y), Order::Less);
    assert_eq!(compare_uses(&y, &x), Order::Greater);
    assert_eq!(compare_uses(&x, &x), Order::Equal);
    assert_eq!(compare_uses(&ErrorLocation::AssocType, &x), Order::Less);
    assert_eq!(compare_uses(&ErrorLocation::ClosureInput, &x), Order::Greater);
    assert_eq!(compare_uses(&ErrorLocation::TraitBound, &ErrorLocation::TraitBound), Order::Equal);
    assert_eq!(x.clone(), x);
}

#[test]
fn violation_is_built_from_its_parts() {
    let here = span("src/lib.rs", (1, 2), (3, 4));
    let built = ValidationError::unapproved_external_type_ref(
        "a::B".to_string(),
        &ErrorLocation::TraitBound,
        "mylib::f".to_string(),
        Some(&here),
    );
    assert_eq!(built, violation("a::B", ErrorLocation::TraitBound, "mylib::f", Some(here.clone())));
    assert_eq!(built.external_type(), "a::B");
    assert_eq!(built.location(), Some(&here));
}

#[test]
fn path_grows_by_components() {
    let here = span("src/lib.rs", (1, 2), (3, 4));
    let mut path = Path::new("mylib");
    assert_eq!(path.len(), 1);
    assert_eq!(path.to_string(), "mylib");
    assert_eq!(path.last_type(), Some(ComponentType::Crate));
    assert_eq!(path.last_span(), None);
    let before = path.clone();
    path.push_raw(ComponentType::Enum, "Shape", Some(&here));
    path.push_raw(ComponentType::EnumVariant, "Round", None);
    assert_eq!(path.len(), 3);
    assert_eq!(path.to_string(), "mylib::Shape::Round");
    assert_eq!(path.last_type(), Some(ComponentType::EnumVariant));
    assert_eq!(path.last_span(), None);
    assert_eq!(before.to_string(), "mylib");
    let mut shorter = before.clone();
    shorter.push_raw(ComponentType::Enum, "Shape", Some(&here));
    assert_eq!(shorter.last_span(), Some(&here));
}

fn bare(key: &str, visibility: Visibility, inner: ItemEnum) -> Item {
    Item {
        id: Id(key.to_string()),
        crate_id: 0,
        name: Some("x".to_string()),
        span: None,
        visibility,
        inner,
    }
}

fn path_ending_in(typ: ComponentType) -> Path {
    let mut path = Path::new("mylib");
    path.push_raw(typ, "Holder", None);
    path
}

#[test]
fn effective_visibility() {
    let field = || ItemEnum::StructField(Type::Primitive("u8".to_string()));
    let variant = || ItemEnum::Variant(Variant::Plain);
    let in_enum = path_ending_in(ComponentType::Enum);
    let in_variant = path_ending_in(ComponentType::EnumVariant);
    let in_trait = path_ending_in(ComponentType::Trait);
    let in_struct = path_ending_in(ComponentType::Struct);
    // The three cases in which the place decides.
    assert!(Visitor::is_public(&in_enum, &bare("0:1", Visibility::Default, variant())));
    assert!(Visitor::is_public(&in_variant, &bare("0:1", Visibility::Default, field())));
    assert!(Visitor::is_public(&in_trait, &bare("0:1", Visibility::Default, field())));
    assert!(Visitor::is_public(&in_trait, &bare("0:1", Visibility::Default, ItemEnum::Macro)));
    // Anywhere else an item without a marker is private.
    assert!(!Visitor::is_public(&in_enum, &bare("0:1", Visibility::Default, field())));
    assert!(!Visitor::is_public(&in_variant, &bare("0:1", Visibility::Default, variant())));
    assert!(!Visitor::is_public(&in_struct, &bare("0:1", Visibility::Default, field())));
    assert!(!Visitor::is_public(&Path::new("mylib"), &bare("0:1", Visibility::Default, variant())));
    // In those places the marker of the item makes no difference.
    for marker in [Visibility::Public, Visibility::Crate, Visibility::Restricted] {
        assert!(Visitor::is_public(&in_enum, &bare("0:1", marker, variant())));
        assert!(Visitor::is_public(&in_variant, &bare("0:1", marker, field())));
        assert!(Visitor::is_public(&in_trait, &bare("0:1", marker, field())));
    }
    // Anywhere else the marker decides.
    assert!(Visitor::is_public(&in_struct, &bare("0:1", Visibility::Public, field())));
    assert!(Visitor::is_public(&in_enum, &bare("0:1", Visibility::Public, field())));
    assert!(!Visitor::is_public(&in_struct, &bare("0:1", Visibility::Crate, field())));
    assert!(!Visitor::is_public(&in_enum, &bare("0:1", Visibility::Restricted, field())));
    assert!(!Visitor::is_public(&in_variant, &bare("0:1", Visibility::Crate, variant())));
}

fn named(key: &str, path: &[&str]) -> ItemSummary {
    let path = path.iter().map(|part| part.to_string()).collect();
    ItemSummary { id: Id(key.to_string()), path }
}

#[test]
fn table_finds_the_first_record_of_a_key() {
    let table = Table::new(vec![named("0:1", &["a"]), named("0:2", &["b"]), named("0:1", &["c"])]);
    assert_eq!(table.len(), 3);
    assert_eq!(table.get("0:1"), Some(&named("0:1", &["a"])));
    assert_eq!(table.get("0:2"), Some(&named("0:2", &["b"])));
    assert_eq!(table.get("0:3"), None);
    assert_eq!(table.get(""), None);
    assert_eq!(table.entry(2), &named("0:1", &["c"]));
    let empty: Table<ItemSummary> = Table::new(vec![]);
    assert_eq!(empty.len(), 0);
    assert_eq!(empty.get("0:1"), None);
}
