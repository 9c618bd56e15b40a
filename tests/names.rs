use pretty_name::{
    canonical_name, parse_descriptor, render, truncate_path, truncate_type, NameCache,
    PathSegment, SegmentArgs, TypeArg, TypeExpr, TypePath,
};
use std::any::TypeId;

fn check(descriptor: &str, expected: &str) {
    assert_eq!(canonical_name(descriptor), expected, "descriptor: {}", descriptor);
}

#[test]
fn test_canonical_names_of_std_descriptors() {
    // Primitives
    check("i32", "i32");
    check("bool", "bool");
    check("str", "str");
    check("[i32]", "[i32]");

    // References
    check("&i32", "&i32");
    check("&str", "&str");
    check("&'static str", "&str");
    check("&&&str", "&&&str");
    check("&[i32]", "&[i32]");
    check("&mut alloc::string::String", "&mut String");
    check("&mut &str", "&mut &str");
    check("&mut str", "&mut str");
    check("&mut [i32]", "&mut [i32]");

    // Raw pointers
    check("*const i32", "*const i32");
    check("*mut i32", "*mut i32");
    check("*const str", "*const str");
    check("*mut [u8]", "*mut [u8]");
    check("*const *mut i32", "*const *mut i32");
    check("*const &str", "*const &str");
    check("&*const i32", "&*const i32");

    // Arrays
    check("[i32; 5]", "[i32; 5]");
    check("[bool; 0]", "[bool; 0]");
    check("&[i32; 3]", "&[i32; 3]");
    check("&mut [i32; 5]", "&mut [i32; 5]");
    check("[[i32; 2]; 3]", "[[i32; 2]; 3]");
    check("[[[u8; 2]; 3]; 4]", "[[[u8; 2]; 3]; 4]");
    check("[(i32, bool); 10]", "[(i32, bool); 10]");

    // Tuples
    check("()", "()");
    check("(i32,)", "(i32,)");
    check("(i32, alloc::string::String, bool)", "(i32, String, bool)");
    check("(i32, (alloc::string::String, bool))", "(i32, (String, bool))");
    check("(&str, &[u8])", "(&str, &[u8])");
    check("(&mut alloc::string::String, &i32)", "(&mut String, &i32)");

    // Generic containers
    check("core::option::Option<i32>", "Option<i32>");
    check("core::option::Option<&str>", "Option<&str>");
    check("core::result::Result<i32, alloc::string::String>", "Result<i32, String>");
    check("core::result::Result<(), ()>", "Result<(), ()>");
    check("alloc::vec::Vec<i32>", "Vec<i32>");
    check(
        "std::collections::hash::map::HashMap<alloc::string::String, i32>",
        "HashMap<String, i32>",
    );
    check(
        "alloc::collections::btree::map::BTreeMap<alloc::string::String, i32>",
        "BTreeMap<String, i32>",
    );

    // Function pointers
    check("fn()", "fn()");
    check("fn(i32) -> i32", "fn(i32) -> i32");
    check("fn(i32, alloc::string::String, bool)", "fn(i32, String, bool)");
    check("fn(&str) -> alloc::string::String", "fn(&str) -> String");
    check("fn(&mut i32)", "fn(&mut i32)");
    check("fn(*const i32) -> *mut i32", "fn(*const i32) -> *mut i32");
    check("fn() -> fn(i32) -> i32", "fn() -> fn(i32) -> i32");
    check("fn(fn(i32) -> i32) -> i32", "fn(fn(i32) -> i32) -> i32");
    check("unsafe fn()", "unsafe fn()");
    check("extern \"C\" fn(i32) -> i32", "extern \"C\" fn(i32) -> i32");
    check("unsafe extern \"C\" fn(i32)", "unsafe extern \"C\" fn(i32)");

    // Trait objects
    check("alloc::boxed::Box<dyn core::fmt::Debug>", "Box<dyn Debug>");
    check("&dyn core::fmt::Display", "&dyn Display");
    check("&mut dyn std::io::Write", "&mut dyn Write");
    check(
        "alloc::boxed::Box<dyn core::fmt::Debug + core::marker::Send>",
        "Box<dyn Debug + Send>",
    );
    check(
        "alloc::boxed::Box<dyn core::fmt::Debug + core::marker::Send + core::marker::Sync>",
        "Box<dyn Debug + Send + Sync>",
    );
    check("dyn core::fmt::Debug", "dyn Debug");
    check("dyn core::fmt::Debug + core::marker::Send", "dyn Debug + Send");

    // Smart pointers
    check("alloc::boxed::Box<i32>", "Box<i32>");
    check("alloc::boxed::Box<str>", "Box<str>");
    check("alloc::boxed::Box<[i32]>", "Box<[i32]>");
    check("alloc::rc::Rc<alloc::string::String>", "Rc<String>");
    check("alloc::sync::Arc<alloc::string::String>", "Arc<String>");
    check("core::cell::RefCell<i32>", "RefCell<i32>");

    // Nested generic types
    check("alloc::vec::Vec<alloc::vec::Vec<alloc::string::String>>", "Vec<Vec<String>>");
    check("alloc::vec::Vec<alloc::vec::Vec<alloc::vec::Vec<i32>>>", "Vec<Vec<Vec<i32>>>");
    check(
        "core::option::Option<core::result::Result<i32, alloc::string::String>>",
        "Option<Result<i32, String>>",
    );
    check(
        "alloc::boxed::Box<core::option::Option<alloc::vec::Vec<alloc::string::String>>>",
        "Box<Option<Vec<String>>>",
    );
    check(
        "core::option::Option<alloc::boxed::Box<dyn core::fmt::Debug>>",
        "Option<Box<dyn Debug>>",
    );
    check("alloc::vec::Vec<core::option::Option<&str>>", "Vec<Option<&str>>");

    // Composite structures
    check(
        "(core::option::Option<i32>, core::result::Result<alloc::string::String, ()>)",
        "(Option<i32>, Result<String, ()>)",
    );
    check("&[(i32, alloc::string::String)]", "&[(i32, String)]");
    check("[(core::option::Option<i32>, &str); 5]", "[(Option<i32>, &str); 5]");
    check(
        "std::collections::hash::map::HashMap<alloc::string::String, alloc::vec::Vec<i32>>",
        "HashMap<String, Vec<i32>>",
    );
    check(
        "&[core::option::Option<core::result::Result<i32, alloc::string::String>>]",
        "&[Option<Result<i32, String>>]",
    );
    check("alloc::vec::Vec<fn(i32) -> i32>", "Vec<fn(i32) -> i32>");
    check("core::option::Option<fn() -> alloc::string::String>", "Option<fn() -> String>");

    // Path simplification
    check("alloc::string::String", "String");
    check(
        "core::result::Result<alloc::vec::Vec<u8>, std::io::error::Error>",
        "Result<Vec<u8>, Error>",
    );

    // Extreme nesting
    check(
        "alloc::vec::Vec<core::option::Option<core::result::Result<alloc::boxed::Box<dyn core::fmt::Debug>, alloc::string::String>>>",
        "Vec<Option<Result<Box<dyn Debug>, String>>>",
    );
    check(
        "&[core::option::Option<&[(i32, &str)]>]",
        "&[Option<&[(i32, &str)]>]",
    );
    check(
        "fn(alloc::vec::Vec<&str>) -> core::option::Option<core::result::Result<i32, alloc::boxed::Box<dyn core::error::Error>>>",
        "fn(Vec<&str>) -> Option<Result<i32, Box<dyn Error>>>",
    );

    // Edge cases
    check("[(); 5]", "[(); 5]");
    check("core::marker::PhantomData<i32>", "PhantomData<i32>");
    check("core::marker::PhantomData<&str>", "PhantomData<&str>");
}

#[test]
fn qualified_option_of_i32() {
    check("core::option::Option<i32>", "Option<i32>");
}

#[test]
fn static_str_reference_loses_lifetime() {
    check("&'static str", "&str");
    check("&'a mut core::cell::Cell<&'b str>", "&mut Cell<&str>");
}

#[test]
fn boxed_trait_object_with_marker() {
    check(
        "alloc::boxed::Box<dyn core::fmt::Debug + core::marker::Send>",
        "Box<dyn Debug + Send>",
    );
}

#[test]
fn hash_map_of_string_to_vec() {
    check(
        "std::collections::hash::map::HashMap<alloc::string::String, alloc::vec::Vec<i32>>",
        "HashMap<String, Vec<i32>>",
    );
}

#[test]
fn unparsable_descriptor_gives_sentinel() {
    check("main::{{closure}}", "<error>");
    check("", "<error>");
    check("core::option::Option<i32", "<error>");
    check("alloc::vec::Vec<i32> trailing", "<error>");
    check("[i32; ]", "<error>");
}

#[test]
fn three_level_path_collapses() {
    check("a::b::c", "c");
    check("::core::option::Option<::alloc::string::String>", "Option<String>");
}

#[test]
fn marker_bounds_keep_their_order() {
    check("dyn core::marker::Sync + core::fmt::Debug", "dyn Sync + Debug");
    check("impl core::iter::traits::iterator::Iterator<Item = alloc::string::String>", "impl Iterator<Item = String>");
    check("dyn core::any::Any + 'static", "dyn Any + 'static");
}

#[test]
fn fn_trait_sugar_is_truncated_inside() {
    check(
        "alloc::boxed::Box<dyn core::ops::function::Fn(alloc::string::String) -> std::io::error::Error>",
        "Box<dyn Fn(String) -> Error>",
    );
    check("foo::Bar<'a, 3, T = x::Y>", "Bar<'a, 3, T = Y>");
    check("(core::fmt::Error)", "(Error)");
    check("!", "!");
    check("_", "_");
}

#[test]
fn nesting_truncates_every_level() {
    check(
        "&[*const (a::B, [c::d::E<f::G>; 2])]",
        "&[*const (B, [E<G>; 2])]",
    );
}

#[test]
fn arity_is_kept() {
    check("(a::A, b::B, c::C, d::D)", "(A, B, C, D)");
    check("fn(a::A, b::B, c::C)", "fn(A, B, C)");
    check("x::M<a::A, b::B, c::C>", "M<A, B, C>");
}

#[test]
fn tree_round_trip_and_truncation() {
    let descriptor = "&'static mut core::option::Option<(alloc::string::String, u8)>";
    let mut tree = parse_descriptor(descriptor).expect("descriptor parses");
    assert_eq!(render(&tree), descriptor);
    truncate_type(&mut tree);
    assert_eq!(render(&tree), "&mut Option<(String, u8)>");
    match &tree {
        TypeExpr::Ref { lifetime, mutable, .. } => {
            assert!(lifetime.is_none());
            assert!(*mutable);
        }
        _ => panic!("expected a reference"),
    }
    assert!(parse_descriptor("{integer}").is_none());
}

#[test]
fn truncate_path_keeps_last_segment() {
    let mut path = TypePath {
        leading_colon: true,
        segments: vec![
            PathSegment { ident: "std".to_string(), args: SegmentArgs::Plain },
            PathSegment {
                ident: "Vec".to_string(),
                args: SegmentArgs::Angle(vec![TypeArg::Type(TypeExpr::Path(TypePath {
                    leading_colon: false,
                    segments: vec![
                        PathSegment { ident: "a".to_string(), args: SegmentArgs::Plain },
                        PathSegment { ident: "B".to_string(), args: SegmentArgs::Plain },
                    ],
                }))]),
            },
        ],
    };
    truncate_path(&mut path);
    assert!(!path.leading_colon);
    assert_eq!(render(&TypeExpr::Path(path)), "Vec<B>");

    let mut empty = TypePath { leading_colon: true, segments: vec![] };
    truncate_path(&mut empty);
    assert!(!empty.leading_colon);
    assert!(empty.segments.is_empty());
}

#[test]
fn cache_returns_the_same_name_twice() {
    let mut cache = NameCache::new();
    let key = TypeId::of::<Option<i32>>();
    let first = cache.name_for(key, "core::option::Option<i32>");
    assert_eq!(first, "Option<i32>");
    let second = cache.name_for(key, "something::else::Entirely");
    assert_eq!(second, "Option<i32>");
    assert!(std::ptr::eq(first, second));
    assert_eq!(cache.lookup(&key), Some("Option<i32>"));
}

#[test]
fn cache_keeps_types_apart() {
    let mut cache = NameCache::new();
    let a = cache.name_for(TypeId::of::<Vec<i32>>(), "alloc::vec::Vec<i32>");
    let b = cache.name_for(TypeId::of::<String>(), "alloc::string::String");
    assert_eq!(a, "Vec<i32>");
    assert_eq!(b, "String");
    assert_eq!(cache.lookup(&TypeId::of::<u8>()), None);
    assert_eq!(cache.lookup(&TypeId::of::<String>()), Some("String"));
    let bad = cache.name_for(TypeId::of::<u16>(), "x::{{closure}}");
    assert_eq!(bad, "<error>");
}

#[test]
fn descriptors_read_back_from_their_trees() {
    for d in [
        "&'a mut [::x::y::Z<'b, 7, Item = &'c str>; 12]",
        "unsafe extern \"system\" fn(*mut u8, (i32,)) -> !",
        "impl core::ops::function::FnOnce() + 'static",
        "(dyn a::B + c::D)",
        "_",
    ] {
        let tree = parse_descriptor(d).expect("descriptor parses");
        assert_eq!(render(&tree), d);
    }
}

#[test]
fn lifetimes_elided_at_every_depth() {
    check("&'a &'b mut &'c [&'d u8]", "&&mut &[&u8]");
    check(
        "core::option::Option<&'x alloc::vec::Vec<&'y str>>",
        "Option<&Vec<&str>>",
    );
}
